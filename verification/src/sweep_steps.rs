//! Which inodes a [`Sweep`](crate::sweep::Sweep) selects, what it prints of them
//! and what it does with each answer, in terms of the numbers and bytes that it
//! is handed.

use vstd::prelude::*;

use crate::btrfs::{BatchEnd, InodeFlags, Lookup};
use crate::bytes::ByteOrder;
use crate::errors::Error;
use crate::sweep::{SweepEvent, SweepOpts, SweepPhase, SweepState};

verus! {

/// The inode is to be shown: it is not the subvolume's root, whose number is
/// 256, and the attributes that its flags stand for have each bit of the filter.
pub open spec fn is_wanted(mask: u32, item: InodeFlags) -> bool {
    item.objectid != 256 && crate::flags::sets_every_bit(
        crate::flags::fs_of_btrfs(item.flags),
        mask,
    )
}

/// A selection keeps every wanted inode and no other, and keeps their order: it
/// can be taken of parts and put together.
pub proof fn law_selection(
    mask: u32,
    before: Seq<InodeFlags>,
    item: InodeFlags,
    after: Seq<InodeFlags>,
)
    ensures
        crate::sweep::selected(mask, item) <==> is_wanted(mask, item),
        crate::sweep::selection(mask, seq![]) == Seq::<InodeFlags>::empty(),
        is_wanted(mask, item) ==> crate::sweep::selection(mask, before + seq![item] + after)
            == crate::sweep::selection(mask, before) + seq![item] + crate::sweep::selection(
            mask,
            after,
        ),
        !is_wanted(mask, item) ==> crate::sweep::selection(mask, before + seq![item] + after)
            == crate::sweep::selection(mask, before) + crate::sweep::selection(mask, after),
{
    let pick = |x: InodeFlags| crate::sweep::selected(mask, x);
    crate::flags::law_filter_is_bitwise(crate::flags::fs_of_btrfs(item.flags), mask);
    Seq::filter_distributes_over_add(before + seq![item], after, pick);
    Seq::filter_distributes_over_add(before, seq![item], pick);
    reveal_with_fuel(Seq::filter, 2);
    assert(seq![item].drop_last() =~= seq![]);
    assert(crate::sweep::selection(mask, seq![]) =~= seq![]);
    if is_wanted(mask, item) {
        assert(seq![item].filter(pick) =~= seq![item]);
    } else {
        assert(seq![item].filter(pick) =~= seq![]);
        assert(before.filter(pick) + seq![] + after.filter(pick) =~= before.filter(pick)
            + after.filter(pick));
    }
}

/// A row shows the attributes and, as the path, the prefix, a slash and the path
/// below the subvolume's root, and nothing beside them.
pub proof fn law_row_of_a_path(opts: SweepOpts, prefix: Seq<u8>, flags: u32, rel: Seq<u8>)
    ensures
        crate::sweep::row_of(opts, prefix, flags, rel) == crate::format::line(
            flags,
            prefix + seq![0x2fu8] + rel,
            opts.long,
            opts.paths_only,
            None,
            None,
        ),
{
    assert(crate::paths::under_prefix(prefix, rel) =~= prefix + seq![0x2fu8] + rel);
}

/// An inode has a row for each of its paths that is not empty, in their order;
/// where rows are bare paths it has that of its first path only.
pub proof fn law_rows_of_an_inode(
    opts: SweepOpts,
    prefix: Seq<u8>,
    flags: u32,
    before: Seq<Seq<u8>>,
    rel: Seq<u8>,
    after: Seq<Seq<u8>>,
)
    ensures
        ({
            let rows = |paths: Seq<Seq<u8>>| crate::sweep::rows_of(opts, prefix, flags, paths);
            let row = crate::sweep::row_of(opts, prefix, flags, rel);
            &&& rows(seq![]).len() == 0
            &&& opts.paths_only && rel.len() > 0 ==> rows(seq![rel] + after) == seq![row]
            &&& opts.paths_only && rel.len() == 0 ==> rows(seq![rel] + after).len() == 0
            &&& !opts.paths_only && rel.len() > 0 ==> rows(before + seq![rel] + after) == rows(
                before,
            ) + seq![row] + rows(after)
            &&& !opts.paths_only && rel.len() == 0 ==> rows(before + seq![rel] + after) == rows(
                before,
            ) + rows(after)
        }),
{
    let full = |x: Seq<u8>| x.len() > 0;
    let all = before + seq![rel] + after;
    let row = crate::sweep::row_of(opts, prefix, flags, rel);
    let one = seq![rel] + after;
    reveal_with_fuel(Seq::filter, 2);
    assert(seq![rel].drop_last() =~= seq![]);
    assert(seq![rel].filter(full) =~= if rel.len() > 0 {
        seq![rel]
    } else {
        seq![]
    });
    if opts.paths_only {
        assert(one.take(1) =~= seq![rel]);
        assert(one.len() == 1 ==> one =~= seq![rel]);
        assert(rel.len() > 0 ==> crate::sweep::rows_of(opts, prefix, flags, one) =~= seq![row]);
    } else {
        Seq::filter_distributes_over_add(before + seq![rel], after, full);
        Seq::filter_distributes_over_add(before, seq![rel], full);
        assert(all.filter(full) =~= before.filter(full) + seq![rel].filter(full) + after.filter(
            full,
        ));
        if rel.len() > 0 {
            assert(crate::sweep::rows_of(opts, prefix, flags, all) =~= crate::sweep::rows_of(
                opts,
                prefix,
                flags,
                before,
            ) + seq![row] + crate::sweep::rows_of(opts, prefix, flags, after));
        } else {
            assert(crate::sweep::rows_of(opts, prefix, flags, all) =~= crate::sweep::rows_of(
                opts,
                prefix,
                flags,
                before,
            ) + crate::sweep::rows_of(opts, prefix, flags, after));
        }
    }
}

/// The sweep `s` past what it has dealt with: on to the lookup of the next
/// selected inode, with a buffer of 16 KiB; or else to what the last reply led
/// to, which is another search, the end, or the failure of a malformed reply.
pub open spec fn proceeds(s: SweepState) -> SweepState {
    if s.items.len() > 0 {
        SweepState {
            phase: SweepPhase::Resolve,
            inum: s.items[0].objectid,
            flags: crate::flags::fs_of_btrfs(s.items[0].flags),
            size: 16384,
            items: s.items.skip(1),
            ..s
        }
    } else {
        match s.end {
            BatchEnd::Next(objectid) => SweepState {
                phase: SweepPhase::Search,
                cursor: objectid,
                ..s
            },
            BatchEnd::Last => SweepState { phase: SweepPhase::Finished, ..s },
            BatchEnd::Malformed(cause) => SweepState {
                phase: SweepPhase::Failed(Error::Data(cause)),
                ..s
            },
        }
    }
}

/// The sweep `s` with rows to write, or past them.
pub open spec fn writes_on(s: SweepState) -> SweepState {
    if s.rows.len() > 0 {
        SweepState { phase: SweepPhase::Emit, ..s }
    } else {
        proceeds(s)
    }
}

/// A sweep starts with the opening of its subvolume, then searches from the
/// first objectid on. It has found and written nothing.
pub proof fn law_sweep_starts(prefix: Seq<u8>, dev: u64, opts: SweepOpts, order: ByteOrder)
    ensures
        ({
            let s = SweepState::start(prefix, dev, opts, order);
            &&& s.phase is Open
            &&& s.prefix == prefix && s.dev == dev && s.opts == opts && s.order == order
            &&& s.cursor == 0
            &&& s.items.len() == 0 && s.rows.len() == 0
            &&& !s.emitted
        }),
{
}

/// Only a directory with the inode number 256 on the device of the subvolume is
/// searched; any other is refused as no subvolume root (22).
pub proof fn law_opened_roots(s: SweepState, ino: u64, dev: u64)
    requires
        s.phase is Open,
    ensures
        s.step(SweepEvent::Opened(ino, dev)) == (SweepState {
            phase: if ino == 256 && dev == s.dev {
                SweepPhase::Search
            } else {
                SweepPhase::Failed(Error::Os(22))
            },
            ..s
        }),
{
}

/// A search reply is read from where it was asked for, and what is wanted of it
/// is looked up next.
pub proof fn law_searched_replies(s: SweepState, buf: Seq<u8>)
    requires
        s.phase is Search,
    ensures
        ({
            let (items, end) = crate::btrfs::batch_of(s.order, buf, s.cursor);
            s.step(SweepEvent::Searched(buf)) == proceeds(
                SweepState { items: crate::sweep::selection(s.opts.has_mask, items), end, ..s },
            )
        }),
{
    assert(forall|x: Seq<InodeFlags>| x.len() > 0 ==> #[trigger] x.drop_first() =~= x.skip(1));
}

/// A path reply gives the rows of the inode in hand, or the size of the buffer
/// to ask again with, or ends the sweep.
pub proof fn law_resolved_replies(s: SweepState, buf: Seq<u8>)
    requires
        s.phase is Resolve,
    ensures
        s.step(SweepEvent::Resolved(buf)) == match crate::btrfs::lookup(s.order, buf, s.size) {
            Lookup::Paths(paths) => writes_on(
                SweepState {
                    rows: crate::sweep::rows_of(s.opts, s.prefix, s.flags, paths),
                    ..s
                },
            ),
            Lookup::Retry(size) => SweepState { size, ..s },
            Lookup::Malformed(cause) => SweepState {
                phase: SweepPhase::Failed(Error::Data(cause)),
                ..s
            },
        },
{
    assert(forall|x: Seq<InodeFlags>| x.len() > 0 ==> #[trigger] x.drop_first() =~= x.skip(1));
}

/// Rows are written one by one, and from the first on the sweep has emitted
/// something. An inode that has gone (2) is passed over. Every other failure
/// ends the sweep with its cause.
pub proof fn law_written_rows_and_failures(s: SweepState, e: Error)
    ensures
        s.phase is Emit && s.rows.len() > 0 ==> s.step(SweepEvent::Written) == writes_on(
            SweepState { rows: s.rows.skip(1), emitted: true, ..s },
        ),
        s.phase is Open || s.phase is Search || s.phase is Emit || (s.phase is Resolve && e
            != Error::Os(2)) ==> s.step(SweepEvent::Failed(e)) == (SweepState {
            phase: SweepPhase::Failed(e),
            ..s
        }),
        s.phase is Resolve ==> s.step(SweepEvent::Failed(Error::Os(2))) == proceeds(s),
{
    assert(forall|x: Seq<InodeFlags>| x.len() > 0 ==> #[trigger] x.drop_first() =~= x.skip(1));
    assert(s.rows.len() > 0 ==> s.rows.drop_first() =~= s.rows.skip(1));
}

/// A sweep takes no answer to a question that it has not asked.
pub proof fn law_unasked_answers_change_nothing(s: SweepState, event: SweepEvent)
    requires
        match event {
            SweepEvent::Opened(_, _) => !(s.phase is Open),
            SweepEvent::Searched(_) => !(s.phase is Search),
            SweepEvent::Resolved(_) => !(s.phase is Resolve),
            SweepEvent::Written => !(s.phase is Emit),
            SweepEvent::Failed(_) => s.phase is Finished || s.phase is Failed,
        },
    ensures
        s.step(event) == s,
{
}

} // verus!
