//! What a whole sweep does: the laws that tie the steps of a
//! [`Sweep`](crate::sweep::Sweep) to the inode items of the subvolume.

use vstd::prelude::*;

use crate::btrfs::{BatchEnd, InodeFlags, Lookup, FSPATH_BUF_BYTES};
use crate::bytes::ByteOrder;
use crate::errors::{Error, ENOENT};
use crate::sweep::{SweepEvent, SweepOpts, SweepPhase, SweepState};

verus! {

/// The row that the answer `event` reports as written.
pub open spec fn row_written(s: SweepState, event: SweepEvent) -> Seq<Seq<u8>> {
    if s.phase is Emit && event is Written && s.rows.len() > 0 {
        seq![s.rows[0]]
    } else {
        seq![]
    }
}

/// The sweep after the answers `events`, and the rows written meanwhile.
pub open spec fn sweep_run(s: SweepState, events: Seq<SweepEvent>) -> (SweepState, Seq<Seq<u8>>)
    decreases events.len(),
{
    if events.len() == 0 {
        (s, seq![])
    } else {
        let (t, rows) = sweep_run(s.step(events[0]), events.drop_first());
        (t, row_written(s, events[0]) + rows)
    }
}

proof fn lemma_run_one(s: SweepState, event: SweepEvent, rest: Seq<SweepEvent>)
    ensures
        sweep_run(s, seq![event] + rest).0 == sweep_run(s.step(event), rest).0,
        sweep_run(s, seq![event] + rest).1 == row_written(s, event) + sweep_run(
            s.step(event),
            rest,
        ).1,
{
    assert((seq![event] + rest).drop_first() =~= rest);
}

proof fn lemma_run_concat(s: SweepState, a: Seq<SweepEvent>, b: Seq<SweepEvent>)
    ensures
        sweep_run(s, a + b).0 == sweep_run(sweep_run(s, a).0, b).0,
        sweep_run(s, a + b).1 == sweep_run(s, a).1 + sweep_run(sweep_run(s, a).0, b).1,
    decreases a.len(),
{
    if a.len() == 0 {
        assert(a + b =~= b);
        assert(sweep_run(s, a).1 + sweep_run(s, b).1 =~= sweep_run(s, b).1);
    } else {
        assert((a + b).drop_first() =~= a.drop_first() + b);
        lemma_run_concat(s.step(a[0]), a.drop_first(), b);
        assert(sweep_run(s, a + b).1 =~= sweep_run(s, a).1 + sweep_run(sweep_run(s, a).0, b).1);
    }
}

/// Nothing is searched, resolved or written before the opened directory has
/// proved to be the root of the subvolume that the caller picked.
pub proof fn law_search_needs_the_selected_root(
    prefix: Seq<u8>,
    dev: u64,
    opts: SweepOpts,
    order: ByteOrder,
    events: Seq<SweepEvent>,
)
    ensures
        ({
            let (s, rows) = sweep_run(SweepState::start(prefix, dev, opts, order), events);
            s.phase is Search || s.phase is Resolve || s.phase is Emit || s.phase is Finished
                || rows.len() > 0 ==> exists|i: int|
                0 <= i < events.len() && #[trigger] events[i] == SweepEvent::Opened(256, dev)
        }),
{
    lemma_unopened(SweepState::start(prefix, dev, opts, order), events);
}

proof fn lemma_unopened(s: SweepState, events: Seq<SweepEvent>)
    requires
        s.phase is Open || s.phase is Failed,
    ensures
        ({
            let (t, rows) = sweep_run(s, events);
            ||| (t.phase is Open || t.phase is Failed) && rows.len() == 0
            ||| exists|i: int|
                0 <= i < events.len() && #[trigger] events[i] == SweepEvent::Opened(256, s.dev)
        }),
    decreases events.len(),
{
    if events.len() > 0 {
        let e = events[0];
        let rest = events.drop_first();
        if e != SweepEvent::Opened(256, s.dev) {
            lemma_unopened(s.step(e), rest);
            if exists|i: int|
                0 <= i < rest.len() && #[trigger] rest[i] == SweepEvent::Opened(256, s.dev) {
                let i = choose|i: int|
                    0 <= i < rest.len() && #[trigger] rest[i] == SweepEvent::Opened(256, s.dev);
                assert(events[i + 1] == rest[i]);
            }
        }
    }
}

/// Objectids grow strictly, as keys of a tree do.
pub open spec fn in_key_order(items: Seq<InodeFlags>) -> bool {
    forall|i: int, j: int|
        0 <= i < j < items.len() ==> (#[trigger] items[i]).objectid < (#[trigger] items[j]).objectid
}

/// The items that are left when those below the objectid `cursor` are dropped.
pub open spec fn from_cursor(items: Seq<InodeFlags>, cursor: u64) -> Seq<InodeFlags>
    decreases items.len(),
{
    if items.len() == 0 || items[0].objectid >= cursor {
        items
    } else {
        from_cursor(items.drop_first(), cursor)
    }
}

/// `buf` is a reply to a search from `cursor` in a tree with the inode items
/// `items`: some of the items from `cursor` on, in key order and without gaps;
/// none only if none is left.
pub open spec fn answers_search(
    order: ByteOrder,
    items: Seq<InodeFlags>,
    cursor: u64,
    buf: Seq<u8>,
) -> bool {
    let (run, end) = crate::btrfs::batch_of(order, buf, cursor);
    let left = from_cursor(items, cursor);
    &&& run.len() <= left.len()
    &&& run == left.take(run.len() as int)
    &&& run.len() == 0 ==> left.len() == 0 && end == BatchEnd::Last
    &&& run.len() > 0 ==> end == crate::replies::after(run.last().objectid)
}

/// `bufs` are the replies to the searches of a whole sweep from `cursor` on:
/// each answers the search that its predecessor led to, the last ends it.
pub open spec fn answers_sweep(
    order: ByteOrder,
    items: Seq<InodeFlags>,
    cursor: u64,
    bufs: Seq<Seq<u8>>,
) -> bool
    decreases bufs.len(),
{
    &&& bufs.len() > 0
    &&& answers_search(order, items, cursor, bufs[0])
    &&& match crate::btrfs::batch_of(order, bufs[0], cursor).1 {
        BatchEnd::Next(next) => answers_sweep(order, items, next, bufs.drop_first()),
        _ => bufs.len() == 1,
    }
}

/// The inodes that the replies of a sweep hold, in order.
pub open spec fn streamed(order: ByteOrder, cursor: u64, bufs: Seq<Seq<u8>>) -> Seq<InodeFlags>
    decreases bufs.len(),
{
    if bufs.len() == 0 {
        seq![]
    } else {
        let (run, end) = crate::btrfs::batch_of(order, bufs[0], cursor);
        match end {
            BatchEnd::Next(next) => run + streamed(order, next, bufs.drop_first()),
            _ => run,
        }
    }
}

proof fn lemma_key_order_rest(items: Seq<InodeFlags>)
    requires
        in_key_order(items),
        items.len() > 0,
    ensures
        in_key_order(items.drop_first()),
{
    let rest = items.drop_first();
    assert forall|i: int, j: int| 0 <= i < j < rest.len() implies (#[trigger] rest[i]).objectid < (
    #[trigger] rest[j]).objectid by {
        assert(rest[i] == items[i + 1]);
        assert(rest[j] == items[j + 1]);
    }
}

/// Dropping in two steps is dropping in one.
proof fn lemma_from_twice(items: Seq<InodeFlags>, a: u64, b: u64)
    requires
        in_key_order(items),
        a <= b,
    ensures
        in_key_order(from_cursor(items, a)),
        from_cursor(from_cursor(items, a), b) == from_cursor(items, b),
    decreases items.len(),
{
    if items.len() > 0 && items[0].objectid < a {
        lemma_key_order_rest(items);
        lemma_from_twice(items.drop_first(), a, b);
    }
}

/// After the first `k` items of what is left, the search goes on with the
/// others.
proof fn lemma_advance(left: Seq<InodeFlags>, k: int)
    requires
        in_key_order(left),
        0 < k <= left.len(),
        left[k - 1].objectid < u64::MAX,
    ensures
        from_cursor(left, (left[k - 1].objectid + 1) as u64) == left.skip(k),
    decreases k,
{
    let rest = left.drop_first();
    reveal_with_fuel(from_cursor, 2);
    if k == 1 {
        assert(rest =~= left.skip(1));
        if left.len() > 1 {
            assert(left[0].objectid < left[1].objectid);
            assert(rest[0] == left[1]);
        }
    } else {
        lemma_key_order_rest(left);
        assert(left[0].objectid < left[k - 1].objectid);
        assert(rest[k - 2] == left[k - 1]);
        lemma_advance(rest, k - 1);
        assert(rest.skip(k - 1) =~= left.skip(k));
    }
}

proof fn lemma_streamed(
    order: ByteOrder,
    items: Seq<InodeFlags>,
    cursor: u64,
    bufs: Seq<Seq<u8>>,
)
    requires
        in_key_order(items),
        answers_sweep(order, items, cursor, bufs),
    ensures
        streamed(order, cursor, bufs) == from_cursor(items, cursor),
    decreases bufs.len(),
{
    let (run, end) = crate::btrfs::batch_of(order, bufs[0], cursor);
    let left = from_cursor(items, cursor);
    lemma_from_twice(items, cursor, cursor);
    if let BatchEnd::Next(next) = end {
        let k = run.len() as int;
        assert(run.last() == left[k - 1]);
        lemma_at_least(items, cursor, k - 1);
        lemma_from_twice(items, cursor, next);
        lemma_advance(left, k);
        lemma_streamed(order, items, next, bufs.drop_first());
        assert(run + left.skip(k) =~= left);
    } else if run.len() > 0 {
        let k = run.len() as int;
        assert(run.last() == left[k - 1]);
        if k < left.len() {
            assert(left[k - 1].objectid < left[k].objectid);
        }
        assert(run =~= left);
    } else {
        assert(run =~= left);
    }
}

/// What is left from a cursor on is not below it.
proof fn lemma_at_least(items: Seq<InodeFlags>, cursor: u64, i: int)
    requires
        in_key_order(items),
        0 <= i < from_cursor(items, cursor).len(),
    ensures
        from_cursor(items, cursor)[i].objectid >= cursor,
    decreases items.len(),
{
    if items[0].objectid >= cursor {
        if i > 0 {
            assert(items[0].objectid < items[i].objectid);
        }
    } else {
        lemma_key_order_rest(items);
        lemma_at_least(items.drop_first(), cursor, i);
    }
}

/// A sweep streams every inode item of the subvolume exactly once, in key
/// order, however the kernel cuts them into replies.
pub proof fn law_sweep_streams_every_inode(
    order: ByteOrder,
    items: Seq<InodeFlags>,
    bufs: Seq<Seq<u8>>,
)
    requires
        in_key_order(items),
        answers_sweep(order, items, 0, bufs),
    ensures
        streamed(order, 0, bufs) == items,
{
    lemma_streamed(order, items, 0, bufs);
}

/// The replies to the path lookups of one inode: those that are read, and
/// whether the inode has gone by the next lookup.
pub struct PathReplies {
    pub bufs: Seq<Seq<u8>>,
    pub gone: bool,
}

/// What the replies come to, with a path buffer of `size` bytes at first: each
/// but the last asks for a larger buffer, and the last holds the paths, or the
/// inode has gone and has none. `None` if they are no such replies.
pub open spec fn resolved(order: ByteOrder, r: PathReplies, size: int) -> Option<Seq<Seq<u8>>>
    decreases r.bufs.len(),
{
    if r.bufs.len() == 0 {
        if r.gone {
            Some(seq![])
        } else {
            None
        }
    } else {
        match crate::btrfs::lookup(order, r.bufs[0], size) {
            Lookup::Paths(paths) => if r.bufs.len() == 1 && !r.gone {
                Some(paths)
            } else {
                None
            },
            Lookup::Retry(next) => resolved(
                order,
                PathReplies { bufs: r.bufs.drop_first(), ..r },
                next,
            ),
            Lookup::Malformed(_) => None,
        }
    }
}

/// The size of the path buffer at the last lookup.
pub open spec fn last_size(order: ByteOrder, r: PathReplies, size: int) -> int
    decreases r.bufs.len(),
{
    if r.bufs.len() == 0 {
        size
    } else {
        match crate::btrfs::lookup(order, r.bufs[0], size) {
            Lookup::Retry(next) => last_size(
                order,
                PathReplies { bufs: r.bufs.drop_first(), ..r },
                next,
            ),
            _ => size,
        }
    }
}

/// The paths of an inode as its path lookups give them.
pub open spec fn found_paths(order: ByteOrder, r: PathReplies) -> Seq<Seq<u8>> {
    match resolved(order, r, FSPATH_BUF_BYTES as int) {
        Some(paths) => paths,
        None => seq![],
    }
}

/// The lookups end with the paths, or say that the inode has gone.
pub open spec fn is_answer(order: ByteOrder, r: PathReplies) -> bool {
    resolved(order, r, FSPATH_BUF_BYTES as int) is Some
}

/// The rows of one selected inode.
pub open spec fn inode_rows(
    opts: SweepOpts,
    prefix: Seq<u8>,
    item: InodeFlags,
    paths: Seq<Seq<u8>>,
) -> Seq<Seq<u8>> {
    crate::sweep::rows_of(opts, prefix, crate::flags::fs_of_btrfs(item.flags), paths)
}

/// The rows of a sweep over `items`: those of each selected inode in turn.
/// `replies` holds the path lookups' replies for each objectid.
pub open spec fn sweep_rows(
    opts: SweepOpts,
    prefix: Seq<u8>,
    order: ByteOrder,
    items: Seq<InodeFlags>,
    replies: spec_fn(u64) -> PathReplies,
) -> Seq<Seq<u8>>
    decreases items.len(),
{
    if items.len() == 0 {
        seq![]
    } else if crate::sweep::selected(opts.has_mask, items[0]) {
        inode_rows(opts, prefix, items[0], found_paths(order, replies(items[0].objectid)))
            + sweep_rows(opts, prefix, order, items.drop_first(), replies)
    } else {
        sweep_rows(opts, prefix, order, items.drop_first(), replies)
    }
}

/// As many reports of a written row as there are rows.
pub open spec fn written_events(n: nat) -> Seq<SweepEvent> {
    Seq::new(n, |i: int| SweepEvent::Written)
}

/// The answers that a sweep gets to the path lookups of one inode.
pub open spec fn lookup_events(r: PathReplies) -> Seq<SweepEvent>
    decreases r.bufs.len(),
{
    if r.bufs.len() > 0 {
        seq![SweepEvent::Resolved(r.bufs[0])] + lookup_events(
            PathReplies { bufs: r.bufs.drop_first(), ..r },
        )
    } else if r.gone {
        seq![SweepEvent::Failed(Error::Os(ENOENT))]
    } else {
        seq![]
    }
}

/// The answers that a sweep gets about one selected inode.
pub open spec fn inode_events(
    opts: SweepOpts,
    prefix: Seq<u8>,
    order: ByteOrder,
    item: InodeFlags,
    reply: PathReplies,
) -> Seq<SweepEvent> {
    lookup_events(reply) + written_events(
        inode_rows(opts, prefix, item, found_paths(order, reply)).len(),
    )
}

/// The answers that a sweep gets about the selected inodes `items`.
pub open spec fn inodes_events(
    opts: SweepOpts,
    prefix: Seq<u8>,
    order: ByteOrder,
    items: Seq<InodeFlags>,
    replies: spec_fn(u64) -> PathReplies,
) -> Seq<SweepEvent>
    decreases items.len(),
{
    if items.len() == 0 {
        seq![]
    } else {
        inode_events(opts, prefix, order, items[0], replies(items[0].objectid)) + inodes_events(
            opts,
            prefix,
            order,
            items.drop_first(),
            replies,
        )
    }
}

/// The answers that a sweep gets from the search at `cursor` on.
pub open spec fn search_events(
    opts: SweepOpts,
    prefix: Seq<u8>,
    order: ByteOrder,
    cursor: u64,
    bufs: Seq<Seq<u8>>,
    replies: spec_fn(u64) -> PathReplies,
) -> Seq<SweepEvent>
    decreases bufs.len(),
{
    if bufs.len() == 0 {
        seq![]
    } else {
        let (run, end) = crate::btrfs::batch_of(order, bufs[0], cursor);
        let here = seq![SweepEvent::Searched(bufs[0])] + inodes_events(
            opts,
            prefix,
            order,
            crate::sweep::selection(opts.has_mask, run),
            replies,
        );
        match end {
            BatchEnd::Next(next) => here + search_events(
                opts,
                prefix,
                order,
                next,
                bufs.drop_first(),
                replies,
            ),
            _ => here,
        }
    }
}

/// The state of a sweep that has nothing left of the last reply.
spec fn past(s: SweepState, t: SweepState, emitted: bool) -> bool {
    t == (SweepState {
        items: seq![],
        rows: seq![],
        inum: t.inum,
        flags: t.flags,
        size: t.size,
        emitted: s.emitted || emitted,
        ..s
    }).next_item()
}

/// The rows of the inode in hand are written one after another.
proof fn lemma_rows_run(s: SweepState)
    requires
        s.phase is Emit,
        s.rows.len() > 0,
    ensures
        sweep_run(s, written_events(s.rows.len())).1 == s.rows,
        sweep_run(s, written_events(s.rows.len())).0 == (SweepState {
            rows: seq![],
            emitted: true,
            ..s
        }).next_item(),
    decreases s.rows.len(),
{
    let n = s.rows.len();
    let events = written_events(n);
    let t = s.step(SweepEvent::Written);
    assert(events.drop_first() =~= written_events((n - 1) as nat));
    assert(row_written(s, events[0]) == seq![s.rows[0]]);
    if n == 1 {
        assert(s.rows.drop_first() =~= seq![]);
        assert(events.drop_first() =~= seq![]);
        assert(sweep_run(t, seq![]).1 =~= seq![]);
        assert(seq![s.rows[0]] + seq![] =~= s.rows);
    } else {
        lemma_rows_run(t);
        assert(seq![s.rows[0]] + s.rows.drop_first() =~= s.rows);
    }
}

/// A sweep with an inode in hand repeats its lookup until it has the paths.
proof fn lemma_lookups(s: SweepState, r: PathReplies)
    requires
        s.phase is Resolve,
        s.rows == Seq::<Seq<u8>>::empty(),
        resolved(s.order, r, s.size) is Some,
    ensures
        ({
            let paths = resolved(s.order, r, s.size)->Some_0;
            let found = SweepState {
                rows: crate::sweep::rows_of(s.opts, s.prefix, s.flags, paths),
                size: last_size(s.order, r, s.size),
                ..s
            };
            sweep_run(s, lookup_events(r)) == (found.next_row(), Seq::<Seq<u8>>::empty())
        }),
    decreases r.bufs.len(),
{
    let none = Seq::<SweepEvent>::empty();
    if r.bufs.len() == 0 {
        let e = SweepEvent::Failed(Error::Os(ENOENT));
        assert(seq![e] + none =~= lookup_events(r));
        lemma_run_one(s, e, none);
        lemma_no_paths(s.opts, s.prefix, s.flags);
        assert(sweep_run(s, lookup_events(r)).1 =~= seq![]);
    } else {
        let rest = PathReplies { bufs: r.bufs.drop_first(), ..r };
        let e = SweepEvent::Resolved(r.bufs[0]);
        lemma_run_one(s, e, lookup_events(rest));
        if let Lookup::Retry(next) = crate::btrfs::lookup(s.order, r.bufs[0], s.size) {
            lemma_lookups(SweepState { size: next, ..s }, rest);
        }
        assert(sweep_run(s, lookup_events(r)).1 =~= seq![]);
    }
}

/// A sweep with `item` in hand looks it up and writes its rows.
proof fn lemma_inode_run(s: SweepState, item: InodeFlags, reply: PathReplies)
    requires
        s.phase is Resolve,
        s.rows == Seq::<Seq<u8>>::empty(),
        s.size == FSPATH_BUF_BYTES,
        s.flags == crate::flags::fs_of_btrfs(item.flags),
        is_answer(s.order, reply),
    ensures
        ({
            let rows = inode_rows(s.opts, s.prefix, item, found_paths(s.order, reply));
            let (t, written) = sweep_run(
                s,
                inode_events(s.opts, s.prefix, s.order, item, reply),
            );
            &&& written == rows
            &&& t == (SweepState {
                emitted: s.emitted || rows.len() > 0,
                size: last_size(s.order, reply, s.size),
                ..s
            }).next_item()
        }),
{
    let rows = inode_rows(s.opts, s.prefix, item, found_paths(s.order, reply));
    let size = last_size(s.order, reply, s.size);
    let found = SweepState { rows, size, ..s };
    let lookups = lookup_events(reply);
    let writes = written_events(rows.len());
    lemma_lookups(s, reply);
    lemma_run_concat(s, lookups, writes);
    if rows.len() == 0 {
        assert(rows =~= seq![]);
        assert(writes =~= seq![]);
    } else {
        let emit = found.goto(SweepPhase::Emit);
        let after = SweepState { emitted: true, size, ..s };
        lemma_rows_run(emit);
        lemma_next_item_ignores_phase(after, SweepPhase::Emit);
        assert((SweepState { rows: seq![], emitted: true, ..emit }) == after.goto(
            SweepPhase::Emit,
        ));
    }
    assert(sweep_run(s, lookups + writes).1 =~= rows);
}

/// A sweep with `s.items` queued deals with them one after another.
proof fn lemma_inodes_run(s: SweepState, replies: spec_fn(u64) -> PathReplies)
    requires
        s.rows == Seq::<Seq<u8>>::empty(),
        forall|i: int|
            0 <= i < s.items.len() ==> is_answer(
                s.order,
                #[trigger] replies(s.items[i].objectid),
            ),
        forall|i: int|
            0 <= i < s.items.len() ==> crate::sweep::selected(
                s.opts.has_mask,
                #[trigger] s.items[i],
            ),
    ensures
        ({
            let rows = sweep_rows(s.opts, s.prefix, s.order, s.items, replies);
            let (t, written) = sweep_run(
                s.next_item(),
                inodes_events(s.opts, s.prefix, s.order, s.items, replies),
            );
            written == rows && past(s, t, rows.len() > 0)
        }),
    decreases s.items.len(),
{
    let start = s.next_item();
    if s.items.len() == 0 {
        assert(s.items =~= seq![]);
    } else {
        let item = s.items[0];
        let reply = replies(item.objectid);
        let rest = s.items.drop_first();
        let mine = inode_events(s.opts, s.prefix, s.order, item, reply);
        let others = inodes_events(s.opts, s.prefix, s.order, rest, replies);
        let rows = inode_rows(s.opts, s.prefix, item, found_paths(s.order, reply));
        let more = sweep_rows(s.opts, s.prefix, s.order, rest, replies);
        let after = SweepState {
            emitted: start.emitted || rows.len() > 0,
            size: last_size(s.order, reply, start.size),
            ..start
        };
        assert(is_answer(s.order, reply));
        assert(crate::sweep::selected(s.opts.has_mask, item));
        lemma_inode_run(start, item, reply);
        lemma_run_concat(start, mine, others);
        assert forall|i: int| 0 <= i < rest.len() implies is_answer(
            s.order,
            #[trigger] replies(rest[i].objectid),
        ) by {
            assert(rest[i] == s.items[i + 1]);
            assert(is_answer(s.order, replies(s.items[i + 1].objectid)));
        }
        assert forall|i: int| 0 <= i < rest.len() implies crate::sweep::selected(
            s.opts.has_mask,
            #[trigger] rest[i],
        ) by {
            assert(rest[i] == s.items[i + 1]);
        }
        lemma_inodes_run(after, replies);
        let t = sweep_run(after.next_item(), others).0;
        assert(past(after, t, more.len() > 0));
        assert(past(s, t, (rows + more).len() > 0));
    }
}

proof fn lemma_next_item_ignores_phase(s: SweepState, phase: SweepPhase)
    ensures
        s.goto(phase).next_item() == s.next_item(),
{
}

proof fn lemma_no_paths(opts: SweepOpts, prefix: Seq<u8>, flags: u32)
    ensures
        crate::sweep::rows_of(opts, prefix, flags, seq![]) == Seq::<Seq<u8>>::empty(),
{
    reveal(Seq::filter);
    assert(crate::sweep::rows_of(opts, prefix, flags, seq![]) =~= seq![]);
}

/// A selection keeps the order, and its rows are those of the whole.
proof fn lemma_selection(
    opts: SweepOpts,
    prefix: Seq<u8>,
    order: ByteOrder,
    items: Seq<InodeFlags>,
    replies: spec_fn(u64) -> PathReplies,
)
    ensures
        sweep_rows(
            opts,
            prefix,
            order,
            crate::sweep::selection(opts.has_mask, items),
            replies,
        ) == sweep_rows(opts, prefix, order, items, replies),
        forall|i: int|
            0 <= i < crate::sweep::selection(opts.has_mask, items).len()
                ==> crate::sweep::selected(
                opts.has_mask,
                #[trigger] crate::sweep::selection(opts.has_mask, items)[i],
            ),
        forall|i: int|
            0 <= i < crate::sweep::selection(opts.has_mask, items).len() ==> items.contains(
                #[trigger] crate::sweep::selection(opts.has_mask, items)[i],
            ),
    decreases items.len(),
{
    let pick = |item: InodeFlags| crate::sweep::selected(opts.has_mask, item);
    let chosen = crate::sweep::selection(opts.has_mask, items);
    if items.len() == 0 {
        reveal(Seq::filter);
        assert(chosen =~= items);
    } else {
        let first = seq![items[0]];
        let rest = items.drop_first();
        assert(items =~= first + rest);
        Seq::filter_distributes_over_add(first, rest, pick);
        lemma_selection(opts, prefix, order, rest, replies);
        let tail = crate::sweep::selection(opts.has_mask, rest);
        reveal_with_fuel(Seq::filter, 2);
        assert(first.drop_last() =~= seq![]);
        if pick(items[0]) {
            assert(first.filter(pick) =~= first);
            assert(chosen =~= first + tail);
            assert(chosen.drop_first() =~= tail);
        } else {
            assert(first.filter(pick) =~= seq![]);
            assert(chosen =~= tail);
        }
        assert forall|i: int| 0 <= i < chosen.len() implies crate::sweep::selected(
            opts.has_mask,
            #[trigger] chosen[i],
        ) && items.contains(chosen[i]) by {
            if pick(items[0]) && i == 0 {
                assert(chosen[0] == items[0]);
            } else {
                let k = if pick(items[0]) {
                    i - 1
                } else {
                    i
                };
                assert(chosen[i] == tail[k]);
                assert(rest.contains(tail[k]));
                let j = choose|j: int| 0 <= j < rest.len() && rest[j] == tail[k];
                assert(items[j + 1] == rest[j]);
            }
        }
    }
}

proof fn lemma_rows_concat(
    opts: SweepOpts,
    prefix: Seq<u8>,
    order: ByteOrder,
    a: Seq<InodeFlags>,
    b: Seq<InodeFlags>,
    replies: spec_fn(u64) -> PathReplies,
)
    ensures
        sweep_rows(opts, prefix, order, a + b, replies) == sweep_rows(
            opts,
            prefix,
            order,
            a,
            replies,
        ) + sweep_rows(opts, prefix, order, b, replies),
    decreases a.len(),
{
    if a.len() == 0 {
        assert(a + b =~= b);
        assert(sweep_rows(opts, prefix, order, a + b, replies) =~= sweep_rows(
            opts,
            prefix,
            order,
            a,
            replies,
        ) + sweep_rows(opts, prefix, order, b, replies));
    } else {
        assert((a + b).drop_first() =~= a.drop_first() + b);
        lemma_rows_concat(opts, prefix, order, a.drop_first(), b, replies);
        assert(sweep_rows(opts, prefix, order, a + b, replies) =~= sweep_rows(
            opts,
            prefix,
            order,
            a,
            replies,
        ) + sweep_rows(opts, prefix, order, b, replies));
    }
}

proof fn lemma_searches(
    s: SweepState,
    items: Seq<InodeFlags>,
    bufs: Seq<Seq<u8>>,
    replies: spec_fn(u64) -> PathReplies,
)
    requires
        s.phase is Search,
        s.rows == Seq::<Seq<u8>>::empty(),
        answers_sweep(s.order, items, s.cursor, bufs),
        forall|i: int|
            0 <= i < streamed(s.order, s.cursor, bufs).len() && crate::sweep::selected(
                s.opts.has_mask,
                streamed(s.order, s.cursor, bufs)[i],
            ) ==> is_answer(
                s.order,
                replies((#[trigger] streamed(s.order, s.cursor, bufs)[i]).objectid),
            ),
    ensures
        ({
            let rows = sweep_rows(
                s.opts,
                s.prefix,
                s.order,
                streamed(s.order, s.cursor, bufs),
                replies,
            );
            let (t, written) = sweep_run(
                s,
                search_events(s.opts, s.prefix, s.order, s.cursor, bufs, replies),
            );
            &&& written == rows
            &&& t.phase == SweepPhase::Finished
            &&& t.emitted == (s.emitted || rows.len() > 0)
        }),
    decreases bufs.len(),
{
    let (run, end) = crate::btrfs::batch_of(s.order, bufs[0], s.cursor);
    let all = streamed(s.order, s.cursor, bufs);
    let chosen = crate::sweep::selection(s.opts.has_mask, run);
    let searched = SweepEvent::Searched(bufs[0]);
    let queued = SweepState { items: chosen, end, ..s };
    let events = inodes_events(s.opts, s.prefix, s.order, chosen, replies);
    lemma_selection(s.opts, s.prefix, s.order, run, replies);
    assert forall|i: int| 0 <= i < chosen.len() implies is_answer(
        s.order,
        #[trigger] replies(chosen[i].objectid),
    ) by {
        assert(crate::sweep::selected(s.opts.has_mask, chosen[i]));
        assert(run.contains(chosen[i]));
        let j = choose|j: int| 0 <= j < run.len() && run[j] == chosen[i];
        assert(all[j] == run[j]);
    }
    lemma_inodes_run(queued, replies);
    lemma_run_one(s, searched, events);
    let here = seq![searched] + events;
    let (t, written) = sweep_run(s, here);
    let rows = sweep_rows(s.opts, s.prefix, s.order, run, replies);
    assert(written =~= rows);
    assert(past(queued, t, rows.len() > 0));
    if let BatchEnd::Next(next) = end {
        let rest = bufs.drop_first();
        let more = streamed(s.order, next, rest);
        let others = search_events(s.opts, s.prefix, s.order, next, rest, replies);
        assert(all == run + more);
        assert forall|i: int|
            0 <= i < more.len() && crate::sweep::selected(
                s.opts.has_mask,
                more[i],
            ) implies is_answer(
            s.order,
            replies((#[trigger] more[i]).objectid),
        ) by {
            assert(all[run.len() + i] == more[i]);
        }
        lemma_searches(t, items, rest, replies);
        lemma_run_concat(s, here, others);
        lemma_rows_concat(s.opts, s.prefix, s.order, run, more, replies);
    }
}

/// A sweep of a subvolume with the inode items `items` writes the rows of every
/// inode that the filter selects, in key order and nothing else, and is then
/// complete. It has emitted something exactly if there is such a row.
pub proof fn law_sweep_writes_the_selected_rows(
    prefix: Seq<u8>,
    dev: u64,
    opts: SweepOpts,
    order: ByteOrder,
    items: Seq<InodeFlags>,
    bufs: Seq<Seq<u8>>,
    replies: spec_fn(u64) -> PathReplies,
)
    requires
        in_key_order(items),
        answers_sweep(order, items, 0, bufs),
        forall|i: int|
            0 <= i < items.len() && crate::sweep::selected(opts.has_mask, items[i]) ==> is_answer(
                order,
                replies((#[trigger] items[i]).objectid),
            ),
    ensures
        ({
            let rows = sweep_rows(opts, prefix, order, items, replies);
            let (s, written) = sweep_run(
                SweepState::start(prefix, dev, opts, order),
                seq![SweepEvent::Opened(256, dev)] + search_events(
                    opts,
                    prefix,
                    order,
                    0,
                    bufs,
                    replies,
                ),
            );
            &&& written == rows
            &&& s.phase == SweepPhase::Finished
            &&& s.emitted == (rows.len() > 0)
        }),
{
    let start = SweepState::start(prefix, dev, opts, order);
    let opened = SweepEvent::Opened(256, dev);
    law_sweep_streams_every_inode(order, items, bufs);
    lemma_run_one(start, opened, search_events(opts, prefix, order, 0, bufs, replies));
    lemma_searches(start.step(opened), items, bufs, replies);
    assert(Seq::<Seq<u8>>::empty() + sweep_rows(opts, prefix, order, items, replies)
        =~= sweep_rows(opts, prefix, order, items, replies));
}

/// Where rows are bare paths, an inode has at most one row, the first path's;
/// else it has one row for each path that is not empty.
pub proof fn law_rows_per_inode(
    opts: SweepOpts,
    prefix: Seq<u8>,
    item: InodeFlags,
    paths: Seq<Seq<u8>>,
)
    requires
        forall|i: int| 0 <= i < paths.len() ==> #[trigger] paths[i].len() > 0,
    ensures
        opts.paths_only ==> inode_rows(opts, prefix, item, paths).len() <= 1,
        !opts.paths_only ==> inode_rows(opts, prefix, item, paths).len() == paths.len(),
        forall|i: int|
            0 <= i < inode_rows(opts, prefix, item, paths).len() ==> #[trigger] inode_rows(
                opts,
                prefix,
                item,
                paths,
            )[i] == crate::sweep::row_of(
                opts,
                prefix,
                crate::flags::fs_of_btrfs(item.flags),
                paths[i],
            ),
{
    let taken = if opts.paths_only && paths.len() > 1 {
        paths.take(1)
    } else {
        paths
    };
    lemma_all_kept(taken);
}

/// A filter that nothing fails keeps everything.
proof fn lemma_all_kept(paths: Seq<Seq<u8>>)
    requires
        forall|i: int| 0 <= i < paths.len() ==> #[trigger] paths[i].len() > 0,
    ensures
        paths.filter(|rel: Seq<u8>| rel.len() > 0) == paths,
    decreases paths.len(),
{
    reveal(Seq::filter);
    if paths.len() > 0 {
        assert forall|i: int| 0 <= i < paths.drop_last().len() implies #[trigger] paths.drop_last()[i].len()
            > 0 by {
            assert(paths[i].len() > 0);
        }
        lemma_all_kept(paths.drop_last());
        assert(paths.drop_last().push(paths.last()) =~= paths);
    }
}

/// A sweep prints a row iff it is that of a path of an inode that has all the
/// letters of the filter, other than the subvolume's root.
pub proof fn law_rows_are_of_selected_inodes(
    opts: SweepOpts,
    prefix: Seq<u8>,
    order: ByteOrder,
    items: Seq<InodeFlags>,
    replies: spec_fn(u64) -> PathReplies,
    row: Seq<u8>,
)
    ensures
        sweep_rows(opts, prefix, order, items, replies).contains(row) <==> exists|
            item: InodeFlags,
            rel: Seq<u8>,
        |
            items.contains(item) && crate::sweep::selected(opts.has_mask, item) && (
            #[trigger] crate::sweep::listed_paths(
                opts,
                found_paths(order, replies(item.objectid)),
            ).contains(rel)) && row == crate::sweep::row_of(
                opts,
                prefix,
                crate::flags::fs_of_btrfs(item.flags),
                rel,
            ),
    decreases items.len(),
{
    let rows = sweep_rows(opts, prefix, order, items, replies);
    if items.len() > 0 {
        let first = items[0];
        let rest = items.drop_first();
        let more = sweep_rows(opts, prefix, order, rest, replies);
        let rels = crate::sweep::listed_paths(
            opts,
            found_paths(order, replies(first.objectid)),
        );
        let flags = crate::flags::fs_of_btrfs(first.flags);
        let own = rels.map_values(|rel: Seq<u8>| crate::sweep::row_of(opts, prefix, flags, rel));
        law_rows_are_of_selected_inodes(opts, prefix, order, rest, replies, row);
        assert forall|item: InodeFlags| items.contains(item) <==> item == first || rest.contains(
            item,
        ) by {
            if items.contains(item) {
                let i = choose|i: int| 0 <= i < items.len() && items[i] == item;
                if i > 0 {
                    assert(rest[i - 1] == item);
                }
            }
            if rest.contains(item) {
                let i = choose|i: int| 0 <= i < rest.len() && rest[i] == item;
                assert(items[i + 1] == item);
            }
            assert(items[0] == first);
        }
        if crate::sweep::selected(opts.has_mask, first) {
            assert(rows == own + more);
            assert(rows.contains(row) <==> own.contains(row) || more.contains(row)) by {
                lemma_contains_concat(own, more, row);
            }
            if own.contains(row) {
                let i = choose|i: int| 0 <= i < own.len() && own[i] == row;
                assert(rels.contains(rels[i]));
            }
            if exists|rel: Seq<u8>|
                #[trigger] rels.contains(rel) && row == crate::sweep::row_of(
                    opts,
                    prefix,
                    flags,
                    rel,
                ) {
                let rel = choose|rel: Seq<u8>|
                    #[trigger] rels.contains(rel) && row == crate::sweep::row_of(
                        opts,
                        prefix,
                        flags,
                        rel,
                    );
                let i = choose|i: int| 0 <= i < rels.len() && rels[i] == rel;
                assert(own[i] == row);
            }
        }
    }
}

proof fn lemma_contains_concat<T>(a: Seq<T>, b: Seq<T>, x: T)
    ensures
        (a + b).contains(x) <==> a.contains(x) || b.contains(x),
{
    if a.contains(x) {
        let i = choose|i: int| 0 <= i < a.len() && a[i] == x;
        assert((a + b)[i] == x);
    }
    if b.contains(x) {
        let i = choose|i: int| 0 <= i < b.len() && b[i] == x;
        assert((a + b)[a.len() + i] == x);
    }
}

} // verus!
