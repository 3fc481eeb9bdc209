//! What a whole walk does: the laws that tie the steps of a
//! [`Walker`](crate::walk::Walker) to the directory tree it walks.

use vstd::prelude::*;

use crate::errors::{WriteResult, EINVAL};
use crate::list::Listing;
use crate::walk::{Opts, WalkEvent, WalkPhase, WalkState};

verus! {

/// A directory entry as a walk finds it: its name, what `lstat` says, whether
/// listing it succeeds, and, for a directory, whether it opens, its entries and
/// the errno at its end.
pub struct Entry {
    pub name: Seq<u8>,
    pub mode: Result<u32, i32>,
    pub listed: bool,
    pub opens: bool,
    pub children: Seq<Entry>,
    pub end: i32,
}

/// What a walk does that can be seen from outside.
pub enum WalkEffect {
    List(Seq<u8>),
    Write(Seq<u8>),
    ReportArg(Seq<u8>, i32),
    ReportDir(Seq<u8>, i32),
    ReportEntry(Seq<u8>, i32),
}

/// What can be seen of the phase that `s` is in.
pub open spec fn walk_effect(s: WalkState) -> Seq<WalkEffect> {
    match s.phase {
        WalkPhase::ListArg => seq![WalkEffect::List(s.path)],
        WalkPhase::ListEntry => seq![WalkEffect::List(s.path)],
        WalkPhase::Header => seq![WalkEffect::Write(crate::walk::header_bytes(s.path))],
        WalkPhase::Trailer => seq![WalkEffect::Write(crate::walk::trailer_bytes())],
        WalkPhase::ReportArg(e) => seq![WalkEffect::ReportArg(s.path, e)],
        WalkPhase::ReportDir(e) => seq![WalkEffect::ReportDir(s.frames.last(), e)],
        WalkPhase::ReportEntry(e) => seq![WalkEffect::ReportEntry(s.path, e)],
        _ => seq![],
    }
}

/// The walk after the answers `events`, and what could be seen meanwhile.
pub open spec fn walk_run(s: WalkState, events: Seq<WalkEvent>) -> (WalkState, Seq<WalkEffect>)
    decreases events.len(),
{
    if events.len() == 0 {
        (s, seq![])
    } else {
        let (t, rest) = walk_run(s.step(events[0]), events.drop_first());
        (t, walk_effect(s) + rest)
    }
}

/// How the listing of an entry ended, with the pipe open.
pub open spec fn listing_of(listed: bool) -> Listing {
    if listed {
        Listing::Handled
    } else {
        Listing::Reported
    }
}

/// The walk goes on into the entry `e`, whose mode is `mode`: only under `-R`,
/// only into directories, and never into `.` or `..`.
pub open spec fn descends(opts: Opts, e: Entry, mode: u32) -> bool {
    opts.recursive && crate::list::mode_is_dir(mode) && !crate::paths::is_dot_entry(e.name)
}

/// The entry is left out: its name starts with a dot and `-a` is not given, or
/// it is `.` or `..` and there is a filter.
pub open spec fn left_out(opts: Opts, e: Entry) -> bool {
    (crate::paths::is_hidden(e.name) && !opts.all) || (crate::paths::is_dot_entry(e.name)
        && opts.has_mask != 0)
}

/// `x` where `on` holds, else nothing.
pub open spec fn only_if<T>(on: bool, x: Seq<T>) -> Seq<T> {
    if on {
        x
    } else {
        seq![]
    }
}

/// What a walk shows of the entry `e` of the directory `dir`: one listing and,
/// where it descends, the contents, between a header and a blank line unless
/// headers are off. An entry that cannot be examined shows a diagnostic.
pub open spec fn entry_effects(opts: Opts, dir: Seq<u8>, e: Entry) -> Seq<WalkEffect>
    decreases e,
{
    let path = crate::paths::joined(dir, e.name);
    let headers = crate::walk::writes_headers(opts);
    if crate::paths::has_nul_byte(path) {
        seq![]
    } else {
        match e.mode {
            Err(x) => seq![WalkEffect::ReportEntry(path, x)],
            Ok(mode) => if left_out(opts, e) {
                seq![]
            } else if descends(opts, e, mode) {
                seq![WalkEffect::List(path)] + only_if(
                    headers,
                    seq![WalkEffect::Write(crate::walk::header_bytes(path))],
                ) + (if e.opens {
                    children_effects(opts, path, e.children) + end_effects(path, e.end)
                } else {
                    seq![]
                }) + only_if(headers, seq![WalkEffect::Write(crate::walk::trailer_bytes())])
            } else {
                seq![WalkEffect::List(path)]
            },
        }
    }
}

/// What a walk shows of the entries `children` of `dir`: each in turn.
pub open spec fn children_effects(opts: Opts, dir: Seq<u8>, children: Seq<Entry>) -> Seq<WalkEffect>
    decreases children,
{
    if children.len() == 0 {
        seq![]
    } else {
        entry_effects(opts, dir, children[0]) + children_effects(opts, dir, children.drop_first())
    }
}

/// What a walk shows at the end of `dir`: a diagnostic if it was cut short.
pub open spec fn end_effects(dir: Seq<u8>, end: i32) -> Seq<WalkEffect> {
    only_if(end != 0, seq![WalkEffect::ReportDir(dir, end)])
}

/// The answers that a walk gets about the entry `e` of `dir`.
pub open spec fn entry_events(opts: Opts, dir: Seq<u8>, e: Entry) -> Seq<WalkEvent>
    decreases e,
{
    let path = crate::paths::joined(dir, e.name);
    let written = only_if(
        crate::walk::writes_headers(opts),
        seq![WalkEvent::Written(WriteResult::Done)],
    );
    if crate::paths::has_nul_byte(path) {
        seq![WalkEvent::Entry(e.name)]
    } else {
        match e.mode {
            Err(_) => seq![WalkEvent::Entry(e.name), WalkEvent::Mode(e.mode), WalkEvent::Done],
            Ok(mode) => if left_out(opts, e) {
                seq![WalkEvent::Entry(e.name), WalkEvent::Mode(e.mode)]
            } else if descends(opts, e, mode) {
                seq![
                    WalkEvent::Entry(e.name),
                    WalkEvent::Mode(e.mode),
                    WalkEvent::Listed(listing_of(e.listed)),
                ] + written + seq![WalkEvent::Opened(e.opens)] + (if e.opens {
                    children_events(opts, path, e.children) + end_events(e.end)
                } else {
                    seq![]
                }) + written
            } else {
                seq![
                    WalkEvent::Entry(e.name),
                    WalkEvent::Mode(e.mode),
                    WalkEvent::Listed(listing_of(e.listed)),
                ]
            },
        }
    }
}

/// The answers that a walk gets about the entries `children` of `dir`.
pub open spec fn children_events(opts: Opts, dir: Seq<u8>, children: Seq<Entry>) -> Seq<WalkEvent>
    decreases children,
{
    if children.len() == 0 {
        seq![]
    } else {
        entry_events(opts, dir, children[0]) + children_events(opts, dir, children.drop_first())
    }
}

/// The answers that a walk gets at the end of a directory.
pub open spec fn end_events(end: i32) -> Seq<WalkEvent> {
    seq![WalkEvent::End(end)] + only_if(end != 0, seq![WalkEvent::Done]) + seq![WalkEvent::Done]
}

/// The state in which the walk asks for the next entry.
pub open spec fn reads(s: WalkState, dir: Seq<u8>) -> bool {
    &&& s == s.released(WalkPhase::ReadDir)
    &&& s.frames.len() > 0
    &&& s.entries_dir() == dir
    &&& !s.pipe_broken
}

proof fn lemma_run_one(s: WalkState, event: WalkEvent, rest: Seq<WalkEvent>)
    ensures
        walk_run(s, seq![event] + rest).0 == walk_run(s.step(event), rest).0,
        walk_run(s, seq![event] + rest).1 == walk_effect(s) + walk_run(s.step(event), rest).1,
{
    assert((seq![event] + rest).drop_first() =~= rest);
}

proof fn lemma_run_concat(s: WalkState, a: Seq<WalkEvent>, b: Seq<WalkEvent>)
    ensures
        walk_run(s, a + b).0 == walk_run(walk_run(s, a).0, b).0,
        walk_run(s, a + b).1 == walk_run(s, a).1 + walk_run(walk_run(s, a).0, b).1,
    decreases a.len(),
{
    if a.len() == 0 {
        assert(a + b =~= b);
        assert(walk_run(s, a).1 + walk_run(s, b).1 =~= walk_run(s, b).1);
    } else {
        assert((a + b).drop_first() =~= a.drop_first() + b);
        lemma_run_concat(s.step(a[0]), a.drop_first(), b);
        assert(walk_run(s, a + b).1 =~= walk_run(s, a).1 + walk_run(walk_run(s, a).0, b).1);
    }
}

proof fn lemma_run_last(s: WalkState, event: WalkEvent)
    ensures
        walk_run(s, seq![event]).0 == s.step(event),
        walk_run(s, seq![event]).1 == walk_effect(s),
{
    assert(seq![event].drop_first() =~= seq![]);
    assert(walk_run(s.step(event), seq![event].drop_first()).1 =~= seq![]);
    assert(walk_effect(s) + seq![] =~= walk_effect(s));
}

proof fn lemma_end(s: WalkState, dir: Seq<u8>, end: i32)
    requires
        reads(s, dir),
    ensures
        walk_run(s, end_events(end)).0 == s.goto(WalkPhase::CloseDir).step(WalkEvent::Done),
        walk_run(s, end_events(end)).1 == end_effects(s.frames.last(), end),
{
    let s1 = s.step(WalkEvent::End(end));
    if end == 0 {
        assert(end_events(end) =~= seq![WalkEvent::End(end)] + seq![WalkEvent::Done]);
        lemma_run_one(s, WalkEvent::End(end), seq![WalkEvent::Done]);
        lemma_run_last(s1, WalkEvent::Done);
    } else {
        let s2 = s1.step(WalkEvent::Done);
        assert(end_events(end) =~= seq![WalkEvent::End(end)] + (seq![WalkEvent::Done]
            + seq![WalkEvent::Done]));
        lemma_run_one(s, WalkEvent::End(end), seq![WalkEvent::Done] + seq![WalkEvent::Done]);
        lemma_run_one(s1, WalkEvent::Done, seq![WalkEvent::Done]);
        lemma_run_last(s2, WalkEvent::Done);
    }
    assert(walk_run(s, end_events(end)).1 =~= end_effects(s.frames.last(), end));
}

/// From the moment a subdirectory is to be opened, the walk shows its contents
/// and its section end, and then asks for the next entry of `dir`.
proof fn lemma_subdir(s: WalkState, t: WalkState, path: Seq<u8>, e: Entry)
    requires
        reads(s, s.entries_dir()),
        t == (WalkState {
            path,
            hidden: t.hidden,
            dots: t.dots,
            descend: t.descend,
            ..s.goto(WalkPhase::OpenDir)
        }),
    ensures
        ({
            let headers = crate::walk::writes_headers(s.opts);
            let written = only_if(headers, seq![WalkEvent::Written(WriteResult::Done)]);
            let inner = if e.opens {
                children_events(s.opts, path, e.children) + end_events(e.end)
            } else {
                seq![]
            };
            let shown = if e.opens {
                children_effects(s.opts, path, e.children) + end_effects(path, e.end)
            } else {
                seq![]
            };
            walk_run(t, seq![WalkEvent::Opened(e.opens)] + (inner + written)) == (
                s,
                shown + only_if(headers, seq![WalkEffect::Write(crate::walk::trailer_bytes())]),
            )
        }),
    decreases e.children, 1int,
{
    let opts = s.opts;
    let headers = crate::walk::writes_headers(opts);
    let w = WalkEvent::Written(WriteResult::Done);
    let written = only_if(headers, seq![w]);
    let o = WalkEvent::Opened(e.opens);
    let t1 = t.step(o);
    let inner = if e.opens {
        children_events(opts, path, e.children) + end_events(e.end)
    } else {
        seq![]
    };
    let shown = if e.opens {
        children_effects(opts, path, e.children) + end_effects(path, e.end)
    } else {
        seq![]
    };
    lemma_run_one(t, o, inner + written);
    lemma_run_concat(t1, inner, written);
    if e.opens {
        assert(t1.frames.drop_last() =~= s.frames);
        assert(reads(t1, path));
        lemma_children(t1, path, e.children);
        lemma_run_concat(t1, children_events(opts, path, e.children), end_events(e.end));
        lemma_end(t1, path, e.end);
    }
    let t2 = walk_run(t1, inner).0;
    assert(t2 == s.after_subdir());
    assert(walk_run(t1, inner).1 =~= shown);
    if headers {
        lemma_run_last(t2, w);
    }
    assert(walk_run(t2, written).0 == s);
    assert(walk_run(t, seq![o] + (inner + written)).1 =~= shown + only_if(
        headers,
        seq![WalkEffect::Write(crate::walk::trailer_bytes())],
    ));
}

/// Where a walk stands at an entry that it descends into, it shows of it what
/// `entry_effects` says and then asks for the next.
proof fn lemma_descent(s: WalkState, dir: Seq<u8>, e: Entry, mode: u32)
    requires
        reads(s, dir),
        !crate::paths::has_nul_byte(crate::paths::joined(dir, e.name)),
        e.mode == Ok::<u32, i32>(mode),
        !left_out(s.opts, e),
        descends(s.opts, e, mode),
    ensures
        walk_run(s, entry_events(s.opts, dir, e)) == (s, entry_effects(s.opts, dir, e)),
    decreases e.children, 2int,
{
    let opts = s.opts;
    let path = crate::paths::joined(dir, e.name);
    let events = entry_events(opts, dir, e);
    let e0 = WalkEvent::Entry(e.name);
    let e1 = WalkEvent::Mode(e.mode);
    let e2 = WalkEvent::Listed(listing_of(e.listed));
    let s1 = s.step(e0);
    let s2 = s1.step(e1);
    let s3 = s2.step(e2);
    let headers = crate::walk::writes_headers(opts);
    let w = WalkEvent::Written(WriteResult::Done);
    let written = only_if(headers, seq![w]);
    let inner = if e.opens {
        children_events(opts, path, e.children) + end_events(e.end)
    } else {
        seq![]
    };
    let tail = seq![WalkEvent::Opened(e.opens)] + (inner + written);
    assert(events =~= seq![e0] + (seq![e1] + (seq![e2] + (written + tail))));
    lemma_run_one(s, e0, seq![e1] + (seq![e2] + (written + tail)));
    lemma_run_one(s1, e1, seq![e2] + (written + tail));
    lemma_run_one(s2, e2, written + tail);
    lemma_run_concat(s3, written, tail);
    if headers {
        lemma_run_last(s3, w);
    }
    let s4 = walk_run(s3, written).0;
    assert(s4.phase == WalkPhase::OpenDir);
    lemma_subdir(s, s4, path, e);
    assert(walk_run(s, events).1 =~= entry_effects(opts, dir, e));
}

/// Where a walk stands at an entry, it shows of that entry what
/// `entry_effects` says and then asks for the next.
proof fn lemma_entry(s: WalkState, dir: Seq<u8>, e: Entry)
    requires
        reads(s, dir),
    ensures
        walk_run(s, entry_events(s.opts, dir, e)) == (s, entry_effects(s.opts, dir, e)),
    decreases e.children, 3int,
{
    let opts = s.opts;
    let path = crate::paths::joined(dir, e.name);
    let events = entry_events(opts, dir, e);
    let e0 = WalkEvent::Entry(e.name);
    let e1 = WalkEvent::Mode(e.mode);
    let e2 = WalkEvent::Listed(listing_of(e.listed));
    let s1 = s.step(e0);
    let s2 = s1.step(e1);
    let s3 = s2.step(e2);
    if crate::paths::has_nul_byte(path) {
        lemma_run_last(s, e0);
        assert(s1 == s);
    } else {
        match e.mode {
            Err(x) => {
                assert(events =~= seq![e0] + (seq![e1] + seq![WalkEvent::Done]));
                lemma_run_one(s, e0, seq![e1] + seq![WalkEvent::Done]);
                lemma_run_one(s1, e1, seq![WalkEvent::Done]);
                lemma_run_last(s2, WalkEvent::Done);
                assert(s2.step(WalkEvent::Done) == s);
            },
            Ok(mode) => {
                if left_out(opts, e) {
                    assert(events =~= seq![e0] + seq![e1]);
                    lemma_run_one(s, e0, seq![e1]);
                    lemma_run_last(s1, e1);
                    assert(s2 == s);
                } else if descends(opts, e, mode) {
                    lemma_descent(s, dir, e, mode);
                } else {
                    assert(events =~= seq![e0] + (seq![e1] + seq![e2]));
                    lemma_run_one(s, e0, seq![e1] + seq![e2]);
                    lemma_run_one(s1, e1, seq![e2]);
                    lemma_run_last(s2, e2);
                    assert(s3 == s);
                }
            },
        }
    }
    assert(walk_run(s, events).1 =~= entry_effects(opts, dir, e));
}

/// The same for a run of entries.
proof fn lemma_children(s: WalkState, dir: Seq<u8>, children: Seq<Entry>)
    requires
        reads(s, dir),
    ensures
        walk_run(s, children_events(s.opts, dir, children)) == (
            s,
            children_effects(s.opts, dir, children),
        ),
    decreases children, 0int,
{
    if children.len() > 0 {
        lemma_entry(s, dir, children[0]);
        lemma_children(s, dir, children.drop_first());
        lemma_run_concat(
            s,
            entry_events(s.opts, dir, children[0]),
            children_events(s.opts, dir, children.drop_first()),
        );
    }
}

/// The argument `arg` is walked as a directory rather than listed itself.
pub open spec fn is_walked(opts: Opts, arg: Entry) -> bool {
    arg.mode is Ok && crate::list::mode_is_dir(arg.mode->Ok_0) && !opts.dirs_opt
}

/// The argument `arg`, whose name is its path, fails: it cannot be examined,
/// it is to be walked and cannot be opened, or it is to be listed and that
/// fails.
pub open spec fn arg_fails(opts: Opts, arg: Entry) -> bool {
    ||| crate::paths::has_nul_byte(arg.name)
    ||| arg.mode is Err
    ||| if is_walked(opts, arg) {
        !arg.opens
    } else {
        !arg.listed
    }
}

/// What a walk shows of the argument `arg`.
pub open spec fn arg_effects(opts: Opts, arg: Entry) -> Seq<WalkEffect> {
    if crate::paths::has_nul_byte(arg.name) {
        seq![WalkEffect::ReportArg(arg.name, EINVAL)]
    } else if let Err(e) = arg.mode {
        seq![WalkEffect::ReportArg(arg.name, e)]
    } else if !is_walked(opts, arg) {
        seq![WalkEffect::List(arg.name)]
    } else if arg.opens {
        let dir = crate::walk::arg_dir(opts, arg.name);
        children_effects(opts, dir, arg.children) + end_effects(arg.name, arg.end)
    } else {
        seq![]
    }
}

/// The answers that a walk gets about the argument `arg`.
pub open spec fn arg_events(opts: Opts, arg: Entry) -> Seq<WalkEvent> {
    let taken = seq![WalkEvent::Arg(arg.name)];
    if crate::paths::has_nul_byte(arg.name) {
        taken + seq![WalkEvent::Done]
    } else if arg.mode is Err {
        taken + (seq![WalkEvent::Mode(arg.mode)] + seq![WalkEvent::Done])
    } else if !is_walked(opts, arg) {
        taken + (seq![WalkEvent::Mode(arg.mode)] + seq![
            WalkEvent::Listed(listing_of(arg.listed)),
        ])
    } else if arg.opens {
        taken + (seq![WalkEvent::Mode(arg.mode)] + (seq![WalkEvent::Opened(true)] + (
        children_events(opts, crate::walk::arg_dir(opts, arg.name), arg.children) + end_events(
            arg.end,
        ))))
    } else {
        taken + (seq![WalkEvent::Mode(arg.mode)] + seq![WalkEvent::Opened(false)])
    }
}

/// A walk shows of an argument what `arg_effects` says: the argument itself or
/// its tree, in the order of the directories, and is idle again. It counts an
/// error iff the argument itself fails; whatever fails below it counts for
/// nothing.
pub proof fn law_walk_of_an_argument(s: WalkState, arg: Entry)
    requires
        s == s.released(WalkPhase::Idle),
        s.frames.len() == 0,
        !s.pipe_broken,
    ensures
        walk_run(s, arg_events(s.opts, arg)).0 == (WalkState {
            had_err: s.had_err || arg_fails(s.opts, arg),
            ..s
        }),
        walk_run(s, arg_events(s.opts, arg)).1 == arg_effects(s.opts, arg),
{
    let opts = s.opts;
    let e0 = WalkEvent::Arg(arg.name);
    let e1 = WalkEvent::Mode(arg.mode);
    let s1 = s.step(e0);
    let s2 = s1.step(e1);
    let events = arg_events(opts, arg);
    if crate::paths::has_nul_byte(arg.name) {
        lemma_run_one(s, e0, seq![WalkEvent::Done]);
        lemma_run_last(s1, WalkEvent::Done);
    } else if arg.mode is Err {
        lemma_run_one(s, e0, seq![e1] + seq![WalkEvent::Done]);
        lemma_run_one(s1, e1, seq![WalkEvent::Done]);
        lemma_run_last(s2, WalkEvent::Done);
    } else if !is_walked(opts, arg) {
        let e2 = WalkEvent::Listed(listing_of(arg.listed));
        lemma_run_one(s, e0, seq![e1] + seq![e2]);
        lemma_run_one(s1, e1, seq![e2]);
        lemma_run_last(s2, e2);
    } else if arg.opens {
        let e2 = WalkEvent::Opened(true);
        let dir = crate::walk::arg_dir(opts, arg.name);
        let tail = children_events(opts, dir, arg.children) + end_events(arg.end);
        let s3 = s2.step(e2);
        lemma_run_one(s, e0, seq![e1] + (seq![e2] + tail));
        lemma_run_one(s1, e1, seq![e2] + tail);
        lemma_run_one(s2, e2, tail);
        assert(reads(s3, dir));
        lemma_children(s3, dir, arg.children);
        lemma_run_concat(s3, children_events(opts, dir, arg.children), end_events(arg.end));
        lemma_end(s3, dir, arg.end);
        assert(walk_run(s, events).0.frames =~= s.frames);
    } else {
        let e2 = WalkEvent::Opened(false);
        lemma_run_one(s, e0, seq![e1] + seq![e2]);
        lemma_run_one(s1, e1, seq![e2]);
        lemma_run_last(s2, e2);
    }
    assert(walk_run(s, events).1 =~= arg_effects(opts, arg));
}

/// Where rows are bare paths or filtered, no section header or section end is
/// written.
pub proof fn law_no_headers(opts: Opts, dir: Seq<u8>, children: Seq<Entry>)
    requires
        opts.paths_only || opts.has_mask != 0,
    ensures
        forall|i: int|
            0 <= i < children_effects(opts, dir, children).len() ==> !((
            #[trigger] children_effects(opts, dir, children)[i]) is Write),
    decreases children,
{
    if children.len() > 0 {
        let e = children[0];
        let path = crate::paths::joined(dir, e.name);
        law_no_headers(opts, path, e.children);
        law_no_headers(opts, dir, children.drop_first());
        let first = entry_effects(opts, dir, e);
        let rest = children_effects(opts, dir, children.drop_first());
        let inner = children_effects(opts, path, e.children) + end_effects(path, e.end);
        assert forall|i: int| 0 <= i < first.len() implies !((#[trigger] first[i]) is Write) by {
            if e.mode is Ok && !crate::paths::has_nul_byte(path) && !left_out(opts, e) && descends(
                opts,
                e,
                e.mode->Ok_0,
            ) && e.opens {
                assert(first =~= seq![WalkEffect::List(path)] + inner);
                let k = i - 1;
                if 0 <= k < children_effects(opts, path, e.children).len() {
                    assert(first[i] == children_effects(opts, path, e.children)[k]);
                }
            }
        }
        assert forall|i: int|
            0 <= i < children_effects(opts, dir, children).len() implies !((
        #[trigger] children_effects(opts, dir, children)[i]) is Write) by {
            if i < first.len() {
                assert(children_effects(opts, dir, children)[i] == first[i]);
            } else {
                assert(children_effects(opts, dir, children)[i] == rest[i - first.len()]);
            }
        }
    }
}

/// If the effect is a listing, its path starts with `dir`.
pub open spec fn is_below(effect: WalkEffect, dir: Seq<u8>) -> bool {
    match effect {
        WalkEffect::List(path) => dir.is_prefix_of(path),
        _ => true,
    }
}

proof fn lemma_below(effect: WalkEffect, dir: Seq<u8>, path: Seq<u8>)
    requires
        is_below(effect, path),
        dir.is_prefix_of(path),
    ensures
        is_below(effect, dir),
{
    if let WalkEffect::List(p) = effect {
        assert(p.take(dir.len() as int) =~= path.take(dir.len() as int));
        assert(p.subrange(0, dir.len() as int) =~= dir);
    }
}

/// Every path that a walk lists in a directory starts with the path of the
/// directory.
pub proof fn law_walk_stays_below(opts: Opts, dir: Seq<u8>, children: Seq<Entry>)
    ensures
        forall|i: int|
            0 <= i < children_effects(opts, dir, children).len() ==> is_below(
                #[trigger] children_effects(opts, dir, children)[i],
                dir,
            ),
    decreases children,
{
    if children.len() > 0 {
        let e = children[0];
        let path = crate::paths::joined(dir, e.name);
        assert(dir.is_prefix_of(path)) by {
            assert(path.subrange(0, dir.len() as int) =~= dir);
        }
        law_walk_stays_below(opts, path, e.children);
        law_walk_stays_below(opts, dir, children.drop_first());
        let first = entry_effects(opts, dir, e);
        let rest = children_effects(opts, dir, children.drop_first());
        let inside = children_effects(opts, path, e.children);
        assert forall|i: int| 0 <= i < first.len() implies is_below(#[trigger] first[i], dir) by {
            if e.mode is Ok && !crate::paths::has_nul_byte(path) && !left_out(opts, e) && descends(
                opts,
                e,
                e.mode->Ok_0,
            ) && e.opens {
                let k = if crate::walk::writes_headers(opts) {
                    i - 2
                } else {
                    i - 1
                };
                if 0 <= k < inside.len() {
                    assert(first[i] == inside[k]);
                    lemma_below(inside[k], dir, path);
                }
            }
        }
        assert forall|i: int|
            0 <= i < children_effects(opts, dir, children).len() implies is_below(
            #[trigger] children_effects(opts, dir, children)[i],
            dir,
        ) by {
            if i < first.len() {
                assert(children_effects(opts, dir, children)[i] == first[i]);
            } else {
                assert(children_effects(opts, dir, children)[i] == rest[i - first.len()]);
            }
        }
    }
}

/// Without `-R` a directory is expanded one level: each entry shows at most
/// its own listing or diagnostic.
pub proof fn law_one_level(opts: Opts, dir: Seq<u8>, e: Entry)
    requires
        !opts.recursive,
    ensures
        entry_effects(opts, dir, e).len() <= 1,
        entry_effects(opts, dir, e).len() == 1 && e.mode is Ok ==> entry_effects(opts, dir, e)[0]
            == WalkEffect::List(crate::paths::joined(dir, e.name)),
{
}

/// The shape that every reachable walk has: directories are open exactly while
/// one is being read, no path with a NUL byte reaches a system call, and once
/// the pipe is closed only what is already begun is wound up.
pub open spec fn walk_ok(s: WalkState) -> bool {
    &&& match s.phase {
        WalkPhase::Idle | WalkPhase::StatArg | WalkPhase::ListArg | WalkPhase::ReportArg(_) =>
            s.frames.len() == 0,
        WalkPhase::OpenDir => true,
        _ => s.frames.len() > 0,
    }
    &&& s.pipe_broken ==> match s.phase {
        WalkPhase::Idle | WalkPhase::CloseDir | WalkPhase::Header | WalkPhase::Trailer => true,
        _ => false,
    }
    &&& forall|i: int|
        0 <= i < s.frames.len() ==> !crate::paths::has_nul_byte(#[trigger] s.frames[i])
    &&& match s.phase {
        WalkPhase::StatArg
        | WalkPhase::ListArg
        | WalkPhase::OpenDir
        | WalkPhase::StatEntry
        | WalkPhase::ListEntry
        | WalkPhase::Header => !crate::paths::has_nul_byte(s.path),
        _ => true,
    }
}

/// Every walk starts in that shape and keeps it, whatever it is answered.
pub proof fn law_walk_invariant(s: WalkState, opts: Opts, event: WalkEvent)
    ensures
        walk_ok(WalkState::start(opts)),
        walk_ok(s) ==> walk_ok(s.step(event)),
{
}

/// How much a walk whose pipe is closed still has to wind up.
pub open spec fn wind_up(s: WalkState) -> nat {
    3 * s.frames.len() + match s.phase {
        WalkPhase::Header => 2,
        WalkPhase::Trailer => 1,
        _ => 0nat,
    }
}

/// Once the pipe is closed it stays so, the error count stands, and every
/// answer that the walk waits for brings it nearer to its end.
pub proof fn law_closed_pipe_ends_the_walk(s: WalkState, event: WalkEvent)
    requires
        walk_ok(s),
        s.pipe_broken,
    ensures
        s.step(event).pipe_broken,
        s.step(event).had_err == s.had_err,
        event is Done && s.phase is CloseDir ==> wind_up(s.step(event)) < wind_up(s),
        event is Written && (s.phase is Header || s.phase is Trailer) ==> wind_up(s.step(event))
            < wind_up(s),
        wind_up(s) == 0 <==> s.phase is Idle,
{
}

} // verus!
