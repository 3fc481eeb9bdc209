//! A filtered scan prints the same rows by tree search as by walking every
//! file: the law that lets the program choose between the two.

use vstd::prelude::*;

use crate::ascii::SLASH;
use crate::btrfs::InodeFlags;
use crate::bytes::ByteOrder;
use crate::cli::Cli;
use crate::list::{ErrnoCodes, ListEffect, Probe};
use crate::scan::{Place, ScanEvent, ScanState, Stat};
use crate::scan_laws::{Marks, ScanEffect, ScanEntry};
use crate::sweep_laws::PathReplies;
use crate::walk::{Opts, WalkState};
use crate::walk_laws::{Entry, WalkEffect};

verus! {

/// A file or directory: its name, the type that its directory gives it, whether
/// listing it succeeds, whether the sweep of the subvolume whose root it is
/// writes a row, what `lstat` says of it, and its entries, in the order in which
/// they are read and with `.` and `..` among them.
pub struct Node {
    pub name: Seq<u8>,
    pub kind: u8,
    pub listed: bool,
    pub emitted: bool,
    pub stat: Stat,
    pub children: Seq<Node>,
}

/// The path of an inode below its subvolume's root, and the inode's flags.
pub struct Name {
    pub rel: Seq<u8>,
    pub flags: u64,
}

/// The inode items of a subvolume, the replies to the path lookups of each, and
/// the names among them that no walk reaches, since something is mounted over
/// them.
pub struct Table {
    pub items: Seq<InodeFlags>,
    pub replies: spec_fn(u64) -> PathReplies,
    pub covered: Seq<Name>,
}

/// What a filtered scan is asked for, and what it finds: how each path answers
/// a listing, the flags in the inode item of each path, and the table of each
/// subvolume by its device number.
pub struct World {
    pub opts: Opts,
    pub codes: ErrnoCodes,
    pub order: ByteOrder,
    pub probes: spec_fn(Seq<u8>) -> Probe,
    pub inodes: spec_fn(Seq<u8>) -> u64,
    pub tables: spec_fn(u64) -> Table,
}

/// The node as a walk finds it, when nothing fails.
pub open spec fn walk_entry(n: Node) -> Entry
    decreases n, 1int,
{
    Entry {
        name: n.name,
        mode: Ok(n.stat.mode),
        listed: n.listed,
        opens: true,
        children: walk_entries(n.children),
        end: 0,
    }
}

/// The nodes as a walk finds them.
pub open spec fn walk_entries(children: Seq<Node>) -> Seq<Entry>
    decreases children, 0int,
{
    if children.len() == 0 {
        seq![]
    } else {
        seq![walk_entry(children[0])] + walk_entries(children.drop_first())
    }
}

/// The node as a scan finds it, when nothing fails.
pub open spec fn scan_node(n: Node) -> ScanEntry
    decreases n, 1int,
{
    ScanEntry {
        name: n.name,
        kind: n.kind,
        stat: Some(n.stat),
        listed: n.listed,
        swept: Ok(()),
        emitted: n.emitted,
        walk_err: false,
        root: Some((n.stat.dev, n.stat.ino)),
        opened: Ok(()),
        children: scan_nodes(n.children),
        end: 0,
    }
}

/// The nodes as a scan finds them.
pub open spec fn scan_nodes(children: Seq<Node>) -> Seq<ScanEntry>
    decreases children, 0int,
{
    if children.len() == 0 {
        seq![]
    } else {
        seq![scan_node(children[0])] + scan_nodes(children.drop_first())
    }
}

/// The rows among what a listing shows.
pub open spec fn rows_in(effects: Seq<ListEffect>) -> Seq<Seq<u8>>
    decreases effects.len(),
{
    if effects.len() == 0 {
        seq![]
    } else {
        (match effects[0] {
            ListEffect::Row(row) => seq![row],
            _ => seq![],
        }) + rows_in(effects.drop_first())
    }
}

/// The rows that the listing of `path` prints.
pub open spec fn list_rows(w: World, path: Seq<u8>) -> Seq<Seq<u8>> {
    rows_in(crate::list::list_outcome(path, w.opts, w.codes, (w.probes)(path)).1)
}

/// The rows that a walk prints that shows `effects`.
pub open spec fn walk_rows(w: World, effects: Seq<WalkEffect>) -> Seq<Seq<u8>>
    decreases effects.len(),
{
    if effects.len() == 0 {
        seq![]
    } else {
        (match effects[0] {
            WalkEffect::List(path) => list_rows(w, path),
            WalkEffect::Write(bytes) => seq![bytes],
            _ => seq![],
        }) + walk_rows(w, effects.drop_first())
    }
}

/// The rows that the sweep of the subvolume `place` prints.
pub open spec fn swept_rows(w: World, place: Place) -> Seq<Seq<u8>> {
    let table = (w.tables)(place.dev);
    crate::sweep_laws::sweep_rows(
        crate::scan::sweep_opts(w.opts),
        place.prefix,
        w.order,
        table.items,
        table.replies,
    )
}

/// The rows that a scan prints that shows `effects`.
pub open spec fn scan_rows(w: World, effects: Seq<ScanEffect>) -> Seq<Seq<u8>>
    decreases effects.len(),
{
    if effects.len() == 0 {
        seq![]
    } else {
        (match effects[0] {
            ScanEffect::List(path) => list_rows(w, path),
            ScanEffect::Sweep(place) => swept_rows(w, place),
            _ => seq![],
        }) + scan_rows(w, effects.drop_first())
    }
}

/// The attributes of the file at `path`, if it can be listed.
pub open spec fn reading(w: World, path: Seq<u8>) -> Option<u32> {
    let probe = (w.probes)(path);
    if crate::scan_steps::unusable(path) || probe.open is Err || !crate::list::lists(probe.mode)
        || probe.flags is Err {
        None
    } else {
        Some((probe.flags->Ok_0 % 0x1_0000_0000) as u32)
    }
}

/// The node is a directory, whatever its permissions.
pub open spec fn is_directory(n: Node) -> bool {
    n.stat.mode & 0o170000 == 0o040000
}

/// The directory `n` is the root of a subvolume other than that with the device
/// number `dev`: it has the inode number 256 on another device.
pub open spec fn is_nested(n: Node, dev: u64) -> bool {
    n.stat.ino == 256 && n.stat.dev != dev
}

/// The filter selects inode flags.
pub open spec fn wanted(w: World, flags: u64) -> bool {
    crate::flags::sets_every_bit(crate::flags::fs_of_btrfs(flags), w.opts.has_mask)
}

/// The inode item of the file at `path` tells what a listing of it tells: the
/// attributes that btrfs keeps are the same, and where a listing would print
/// them, there are no others. A file that cannot be listed is not wanted.
pub open spec fn told(w: World, path: Seq<u8>) -> bool {
    let flags = (w.inodes)(path);
    let kept = crate::flags::fs_of_btrfs(flags);
    match reading(w, path) {
        Some(read) => {
            &&& read & 0x8104fc == kept
            &&& w.opts.paths_only || !wanted(w, flags) || crate::format::same_letters(read, kept)
        },
        None => !wanted(w, flags),
    }
}

/// The names of the subvolume in and below the node `n` of its directory `top`,
/// as files. The root of a nested subvolume is no file of this one, nor is what
/// another file system holds that is mounted here.
pub open spec fn names(w: World, top: Place, n: Node) -> Seq<Name>
    decreases n, 1int,
{
    let place = crate::scan::entry_place(top, n.name);
    let own = if n.stat.dev == top.dev {
        seq![Name { rel: place.rel, flags: (w.inodes)(place.dir) }]
    } else {
        seq![]
    };
    if crate::scan_steps::is_self_or_parent(n.name) {
        seq![]
    } else if !is_directory(n) {
        own
    } else if is_nested(n, top.dev) {
        seq![]
    } else {
        own + names_in(w, crate::scan::subdir_place(place), n.children)
    }
}

/// The names in and below the nodes `children`.
pub open spec fn names_in(w: World, top: Place, children: Seq<Node>) -> Seq<Name>
    decreases children, 0int,
{
    if children.len() == 0 {
        seq![]
    } else {
        names(w, top, children[0]) + names_in(w, top, children.drop_first())
    }
}

/// The names of the inode `item`, as the path lookups give them. The root of
/// the subvolume has none.
pub open spec fn item_names(w: World, table: Table, item: InodeFlags) -> Seq<Name> {
    if item.objectid == 256 {
        seq![]
    } else {
        crate::sweep_laws::found_paths(w.order, (table.replies)(item.objectid)).filter(
            |rel: Seq<u8>| rel.len() > 0,
        ).map_values(|rel: Seq<u8>| Name { rel, flags: item.flags })
    }
}

/// The names of the inode items `items` of a table.
pub open spec fn table_names(w: World, table: Table, items: Seq<InodeFlags>) -> Seq<Name>
    decreases items.len(),
{
    if items.len() == 0 {
        seq![]
    } else {
        item_names(w, table, items[0]) + table_names(w, table, items.drop_first())
    }
}

/// An inode that the filter selects has one path at most.
pub open spec fn has_one_path(w: World, table: Table, item: InodeFlags) -> bool {
    wanted(w, item.flags) ==> crate::sweep_laws::found_paths(
        w.order,
        (table.replies)(item.objectid),
    ).len() <= 1
}

/// The table of the subvolume `place` agrees with its files, whose nodes are
/// `children`: every inode item has the names of its files, in any order, and
/// besides them only names that are covered, none of which is wanted. Where
/// rows are bare paths, of which a tree search prints one for each inode, no
/// wanted inode has a second path.
pub open spec fn agrees(w: World, place: Place, children: Seq<Node>) -> bool {
    let table = (w.tables)(place.dev);
    &&& table_names(w, table, table.items).to_multiset() == (names_in(w, place, children)
        + table.covered).to_multiset()
    &&& forall|i: int|
        0 <= i < table.covered.len() ==> !wanted(w, (#[trigger] table.covered[i]).flags)
    &&& w.opts.paths_only ==> forall|i: int|
        0 <= i < table.items.len() ==> has_one_path(w, table, #[trigger] table.items[i])
}

/// The rows of those of the names `found` that are wanted, in the subvolume
/// `place`.
pub open spec fn name_rows(w: World, place: Place, found: Seq<Name>) -> Seq<Seq<u8>> {
    found.filter(|x: Name| wanted(w, x.flags)).map_values(
        |x: Name|
            crate::sweep::row_of(
                crate::scan::sweep_opts(w.opts),
                place.prefix,
                crate::flags::fs_of_btrfs(x.flags),
                x.rel,
            ),
    )
}

/// The inode item of the node `n` tells what its listing tells; if it belongs
/// to another file system, its listing prints nothing.
pub open spec fn shows_alike(w: World, top: Place, n: Node) -> bool {
    let path = crate::scan::entry_place(top, n.name).dir;
    if n.stat.dev == top.dev {
        told(w, path)
    } else {
        list_rows(w, path).len() == 0
    }
}

/// What the law asks of the node `n` of the directory `top`, when the scan
/// remembers `m`: a name that a directory can hold; the type of a directory, or
/// none, for directories; inode items that tell what
/// listings tell, or, in another file system that is mounted here, nothing to
/// print; directories and subvolumes that have not been met; and nested
/// subvolumes whose tables agree with their files.
pub open spec fn sound(w: World, m: Marks, top: Place, n: Node) -> bool
    decreases n, 1int,
{
    let place = crate::scan::entry_place(top, n.name);
    let ids = (n.stat.dev, n.stat.ino);
    &&& n.name.len() > 0
    &&& n.name[n.name.len() - 1] != 0x2f
    &&& !crate::scan_steps::unusable(place.dir)
    &&& is_directory(n) ==> n.kind == 4 || n.kind == 0
    &&& if crate::scan_steps::is_self_or_parent(n.name) {
        true
    } else if !is_directory(n) {
        shows_alike(w, top, n)
    } else if is_nested(n, top.dev) {
        let nested = crate::scan::nested_place(place, n.stat.dev);
        let fresh = Marks {
            subvols: m.subvols.insert(n.stat.dev),
            emitted: m.emitted || n.emitted,
            ..m
        };
        &&& !m.subvols.contains(n.stat.dev)
        &&& !m.dirs.contains(ids)
        &&& agrees(w, nested, n.children)
        &&& sound_in(w, crate::scan_laws::noted(fresh, Some(ids)), nested, n.children)
    } else {
        &&& shows_alike(w, top, n)
        &&& !m.dirs.contains(ids)
        &&& sound_in(
            w,
            crate::scan_laws::noted(m, Some(ids)),
            crate::scan::subdir_place(place),
            n.children,
        )
    }
}

/// The same for the nodes `children`, one after another.
pub open spec fn sound_in(w: World, m: Marks, top: Place, children: Seq<Node>) -> bool
    decreases children, 0int,
{
    children.len() == 0 || (sound(w, m, top, children[0]) && sound_in(
        w,
        crate::scan_laws::scan_entry(m, top, scan_node(children[0])).0,
        top,
        children.drop_first(),
    ))
}

/// An entry's path is the printed prefix, a slash and the path below the root.
pub open spec fn aligned(p: Place) -> bool {
    &&& p.rel.len() > 0 ==> p.dir == crate::paths::joined(p.base, p.rel)
    &&& !crate::paths::ends_in_slash(p.rel)
    &&& (p.base == p.prefix && !crate::paths::ends_in_slash(p.base)) || p.base == p.prefix.push(
        SLASH,
    )
}

/// The path that the entries of the directory `p` are listed under.
pub open spec fn entries_dir(p: Place) -> Seq<u8> {
    crate::paths::composed(p.base, p.rel)
}

/// Entries of an aligned directory are aligned.
proof fn lemma_aligned(top: Place, name: Seq<u8>, dev: u64)
    requires
        aligned(top),
        name.len() > 0,
        !crate::paths::ends_in_slash(name),
    ensures
        ({
            let entry = crate::scan::entry_place(top, name);
            let subdir = crate::scan::subdir_place(entry);
            let nested = crate::scan::nested_place(entry, dev);
            &&& entry.dir == crate::paths::under_prefix(top.prefix, entry.rel)
            &&& aligned(subdir)
            &&& entries_dir(subdir) == entry.dir
            &&& aligned(nested)
            &&& nested.dir == entry.dir
            &&& entries_dir(nested) == entry.dir
        }),
{
    let entry = crate::scan::entry_place(top, name);
    let whole = crate::paths::under_prefix(top.prefix, entry.rel);
    assert(entry.rel.last() == name.last());
    assert(whole.last() == name.last());
    assert(entry.dir =~= whole);
    assert(crate::paths::composed(top.base, entry.rel) =~= whole);
}

/// The options are those of a filtered scan that a tree search can serve.
pub open spec fn serves_both(opts: Opts) -> bool {
    &&& opts.recursive
    &&& opts.all
    &&& !opts.dirs_opt
    &&& !opts.project
    &&& !opts.generation
    &&& opts.has_mask != 0
    &&& opts.has_mask & !0x8104fcu32 == 0
}

/// Every filtered run that the command line sends to the tree search is one
/// that the walk could serve, and no other run is sent there.
pub proof fn law_fast_runs_can_be_walked(cli: Cli, mask: u32)
    requires
        mask != 0,
    ensures
        serves_both(crate::cli::filtered(cli, mask)) <==> crate::cli::is_fast(cli, mask),
{
    crate::flags::law_searchable_bits();
}

/// The listing of an entry prints the row of its name, if it is wanted.
proof fn lemma_list_rows(w: World, top: Place, place: Place)
    requires
        serves_both(w.opts),
        place.dir == crate::paths::under_prefix(top.prefix, place.rel),
        told(w, place.dir),
    ensures
        list_rows(w, place.dir) == name_rows(
            w,
            top,
            seq![Name { rel: place.rel, flags: (w.inodes)(place.dir) }],
        ),
{
    let path = place.dir;
    let flags = (w.inodes)(path);
    let kept = crate::flags::fs_of_btrfs(flags);
    let probe = (w.probes)(path);
    let effects = crate::list::list_outcome(path, w.opts, w.codes, probe).1;
    let name = Name { rel: place.rel, flags };
    let pick = |x: Name| wanted(w, x.flags);
    crate::flags::law_filter_is_bitwise(kept, w.opts.has_mask);
    crate::paths::law_names_by_bytes(path);
    reveal_with_fuel(rows_in, 3);
    reveal_with_fuel(Seq::filter, 2);
    assert(seq![name].drop_last() =~= seq![]);
    assert(seq![name].filter(pick) =~= if wanted(w, flags) {
        seq![name]
    } else {
        seq![]
    });
    crate::flags::law_searchable_bits();
    if reading(w, path) is Some {
        let read = reading(w, path)->Some_0;
        crate::flags::law_fast_filter_agrees(w.opts.has_mask, flags, read);
        if wanted(w, flags) {
            crate::format::law_rows_show_letters_only(
                read,
                kept,
                path,
                w.opts.long,
                w.opts.paths_only,
                None,
                None,
            );
            let row = crate::sweep::row_of(
                crate::scan::sweep_opts(w.opts),
                top.prefix,
                kept,
                place.rel,
            );
            assert(effects[0] == ListEffect::Row(row));
            assert(effects.len() == 1 || effects[1] == ListEffect::WarnWrite);
            assert(effects.drop_first().len() == 1 ==> effects.drop_first()[0] == effects[1]);
            assert(list_rows(w, path) =~= seq![row]);
            assert(name_rows(w, top, seq![name]) =~= seq![row]);
        } else {
            assert(effects.len() == 0);
            assert(name_rows(w, top, seq![name]) =~= seq![]);
        }
    } else {
        assert(effects.len() == 1 && effects[0] is Report);
        assert(list_rows(w, path) =~= seq![]);
        assert(name_rows(w, top, seq![name]) =~= seq![]);
    }
}

/// A filter that nothing passes keeps nothing, and one that everything passes
/// keeps all.
proof fn lemma_uniform_filter<A>(a: Seq<A>, pick: spec_fn(A) -> bool, all: bool)
    requires
        forall|i: int| 0 <= i < a.len() ==> pick(#[trigger] a[i]) == all,
    ensures
        a.filter(pick) == if all {
            a
        } else {
            seq![]
        },
    decreases a.len(),
{
    reveal(Seq::filter);
    if a.len() > 0 {
        assert forall|i: int| 0 <= i < a.drop_last().len() implies pick(
            #[trigger] a.drop_last()[i],
        ) == all by {
            assert(pick(a[i]) == all);
        }
        assert(pick(a[a.len() - 1]) == all);
        lemma_uniform_filter(a.drop_last(), pick, all);
        assert(a.drop_last().push(a.last()) =~= a);
    } else {
        assert(a.filter(pick) =~= seq![]);
        assert(a =~= seq![]);
    }
}

/// A sweep prints of an inode the rows of its names.
proof fn lemma_item_rows(w: World, place: Place, table: Table, item: InodeFlags)
    requires
        w.opts.paths_only ==> has_one_path(w, table, item),
    ensures
        name_rows(w, place, item_names(w, table, item)) == if crate::sweep::selected(
            w.opts.has_mask,
            item,
        ) {
            crate::sweep_laws::inode_rows(
                crate::scan::sweep_opts(w.opts),
                place.prefix,
                item,
                crate::sweep_laws::found_paths(w.order, (table.replies)(item.objectid)),
            )
        } else {
            seq![]
        },
{
    let opts = crate::scan::sweep_opts(w.opts);
    let own = item_names(w, table, item);
    crate::flags::law_filter_is_bitwise(crate::flags::fs_of_btrfs(item.flags), w.opts.has_mask);
    let pick = |x: Name| wanted(w, x.flags);
    lemma_uniform_filter(own, pick, wanted(w, item.flags));
    if crate::sweep::selected(opts.has_mask, item) {
        let paths = crate::sweep_laws::found_paths(w.order, (table.replies)(item.objectid));
        assert(name_rows(w, place, own) =~= crate::sweep_laws::inode_rows(
            opts,
            place.prefix,
            item,
            paths,
        ));
    } else {
        assert(name_rows(w, place, own) =~= seq![]);
    }
}

/// A sweep prints the rows of its table's names.
proof fn lemma_swept_rows(w: World, place: Place, table: Table, items: Seq<InodeFlags>)
    requires
        w.opts.paths_only ==> forall|i: int|
            0 <= i < items.len() ==> has_one_path(w, table, #[trigger] items[i]),
    ensures
        crate::sweep_laws::sweep_rows(
            crate::scan::sweep_opts(w.opts),
            place.prefix,
            w.order,
            items,
            table.replies,
        ) == name_rows(w, place, table_names(w, table, items)),
    decreases items.len(),
{
    if items.len() > 0 {
        let rest = items.drop_first();
        if w.opts.paths_only {
            assert(has_one_path(w, table, items[0]));
            assert forall|i: int| 0 <= i < rest.len() implies has_one_path(
                w,
                table,
                #[trigger] rest[i],
            ) by {
                assert(has_one_path(w, table, items[i + 1]));
            }
        }
        lemma_item_rows(w, place, table, items[0]);
        lemma_swept_rows(w, place, table, rest);
        let own = item_names(w, table, items[0]);
        let more = table_names(w, table, rest);
        lemma_name_rows_concat(w, place, own, more);
        assert(Seq::<Seq<u8>>::empty() + name_rows(w, place, more) =~= name_rows(w, place, more));
    } else {
        lemma_no_names(w, place);
    }
}

proof fn lemma_no_names(w: World, place: Place)
    ensures
        name_rows(w, place, seq![]) == Seq::<Seq<u8>>::empty(),
{
    reveal(Seq::filter);
    assert(name_rows(w, place, seq![]) =~= seq![]);
}

proof fn lemma_name_rows_concat(w: World, place: Place, a: Seq<Name>, b: Seq<Name>)
    ensures
        name_rows(w, place, a + b) == name_rows(w, place, a) + name_rows(w, place, b),
{
    Seq::filter_distributes_over_add(a, b, |x: Name| wanted(w, x.flags));
    assert(name_rows(w, place, a + b) =~= name_rows(w, place, a) + name_rows(w, place, b));
}

/// Sequences with the same elements have filtered parts with the same elements.
proof fn lemma_filter_elements<A>(a: Seq<A>, pick: spec_fn(A) -> bool)
    ensures
        a.filter(pick).to_multiset() == a.to_multiset().filter(pick),
    decreases a.len(),
{
    broadcast use vstd::multiset::group_multiset_axioms;

    reveal(Seq::filter);
    if a.len() == 0 {
        a.to_multiset_ensures();
        assert(a.filter(pick).to_multiset() =~= a.to_multiset().filter(pick));
    } else {
        let front = a.drop_last();
        lemma_filter_elements(front, pick);
        assert(front.push(a.last()) =~= a);
        front.to_multiset_ensures();
        front.filter(pick).to_multiset_ensures();
        assert(a.filter(pick).to_multiset() =~= a.to_multiset().filter(pick));
    }
}

/// Sequences with the same elements have images with the same elements.
proof fn lemma_same_images<A, B>(a: Seq<A>, b: Seq<A>, f: spec_fn(A) -> B)
    requires
        a.to_multiset() == b.to_multiset(),
    ensures
        a.map_values(f).to_multiset() == b.map_values(f).to_multiset(),
    decreases a.len(),
{
    broadcast use vstd::multiset::group_multiset_axioms;

    a.to_multiset_ensures();
    b.to_multiset_ensures();
    if a.len() == 0 {
        assert(a.map_values(f) =~= b.map_values(f));
    } else {
        let last = a.len() - 1;
        let x = a[last];
        assert(a.to_multiset().count(x) > 0);
        assert(b.contains(x));
        let i = choose|i: int| 0 <= i < b.len() && b[i] == x;
        let a1 = a.remove(last);
        let b1 = b.remove(i);
        assert(a1.to_multiset() =~= b1.to_multiset());
        lemma_same_images(a1, b1, f);
        let fa = a.map_values(f);
        let fb = b.map_values(f);
        fa.to_multiset_ensures();
        fb.to_multiset_ensures();
        assert(fa.remove(last) =~= a1.map_values(f));
        assert(fb.remove(i) =~= b1.map_values(f));
        assert(fa.contains(fa[last]) && fb.contains(fb[i]));
        assert(fa.to_multiset() =~= fa.remove(last).to_multiset().insert(f(x)));
        assert(fb.to_multiset() =~= fb.remove(i).to_multiset().insert(f(x)));
    }
}

/// The sweep of a subvolume whose table agrees with its files prints the rows
/// of their names.
proof fn lemma_sweep_agrees(w: World, place: Place, children: Seq<Node>)
    requires
        agrees(w, place, children),
    ensures
        swept_rows(w, place).to_multiset() == name_rows(
            w,
            place,
            names_in(w, place, children),
        ).to_multiset(),
{
    let table = (w.tables)(place.dev);
    let items = table_names(w, table, table.items);
    let files = names_in(w, place, children);
    let pick = |x: Name| wanted(w, x.flags);
    lemma_swept_rows(w, place, table, table.items);
    lemma_filter_elements(items, pick);
    lemma_filter_elements(files + table.covered, pick);
    lemma_same_images(
        items.filter(pick),
        (files + table.covered).filter(pick),
        |x: Name|
            crate::sweep::row_of(
                crate::scan::sweep_opts(w.opts),
                place.prefix,
                crate::flags::fs_of_btrfs(x.flags),
                x.rel,
            ),
    );
    lemma_name_rows_concat(w, place, files, table.covered);
    lemma_uniform_filter(table.covered, pick, false);
    assert(name_rows(w, place, table.covered) =~= seq![]);
    assert(name_rows(w, place, files) + seq![] =~= name_rows(w, place, files));
}

proof fn lemma_walk_rows_concat(w: World, a: Seq<WalkEffect>, b: Seq<WalkEffect>)
    ensures
        walk_rows(w, a + b) == walk_rows(w, a) + walk_rows(w, b),
    decreases a.len(),
{
    if a.len() == 0 {
        assert(a + b =~= b);
        assert(walk_rows(w, a + b) =~= walk_rows(w, a) + walk_rows(w, b));
    } else {
        assert((a + b).drop_first() =~= a.drop_first() + b);
        lemma_walk_rows_concat(w, a.drop_first(), b);
        assert(walk_rows(w, a + b) =~= walk_rows(w, a) + walk_rows(w, b));
    }
}

proof fn lemma_scan_rows_concat(w: World, a: Seq<ScanEffect>, b: Seq<ScanEffect>)
    ensures
        scan_rows(w, a + b) == scan_rows(w, a) + scan_rows(w, b),
    decreases a.len(),
{
    if a.len() == 0 {
        assert(a + b =~= b);
        assert(scan_rows(w, a + b) =~= scan_rows(w, a) + scan_rows(w, b));
    } else {
        assert((a + b).drop_first() =~= a.drop_first() + b);
        lemma_scan_rows_concat(w, a.drop_first(), b);
        assert(scan_rows(w, a + b) =~= scan_rows(w, a) + scan_rows(w, b));
    }
}

proof fn lemma_one_walk_effect(w: World, path: Seq<u8>)
    ensures
        walk_rows(w, seq![WalkEffect::List(path)]) == list_rows(w, path),
{
    let effects = seq![WalkEffect::List(path)];
    reveal_with_fuel(walk_rows, 2);
    assert(effects.drop_first() =~= seq![]);
    assert(walk_rows(w, effects) =~= list_rows(w, path));
}

proof fn lemma_one_scan_effect(w: World, e: ScanEffect)
    ensures
        e matches ScanEffect::List(path) ==> scan_rows(w, seq![e]) == list_rows(w, path),
        e matches ScanEffect::Sweep(place) ==> scan_rows(w, seq![e]) == swept_rows(w, place),
{
    reveal_with_fuel(scan_rows, 2);
    assert(seq![e].drop_first() =~= seq![]);
    match e {
        ScanEffect::List(path) => assert(scan_rows(w, seq![e]) =~= list_rows(w, path)),
        ScanEffect::Sweep(place) => assert(scan_rows(w, seq![e]) =~= swept_rows(w, place)),
        _ => {},
    }
}

/// `a` has the rows of `b` and `c` together.
spec fn joins(a: Seq<Seq<u8>>, b: Seq<Seq<u8>>, c: Seq<Seq<u8>>) -> bool {
    a.to_multiset() == (b + c).to_multiset()
}

proof fn lemma_joins_concat(
    a: Seq<Seq<u8>>,
    b: Seq<Seq<u8>>,
    c: Seq<Seq<u8>>,
    x: Seq<Seq<u8>>,
    y: Seq<Seq<u8>>,
    z: Seq<Seq<u8>>,
)
    requires
        joins(a, b, c),
        joins(x, y, z),
    ensures
        joins(a + x, b + y, c + z),
{
    broadcast use vstd::multiset::group_multiset_axioms;

    vstd::seq_lib::lemma_multiset_commutative(a, x);
    vstd::seq_lib::lemma_multiset_commutative(b, c);
    vstd::seq_lib::lemma_multiset_commutative(y, z);
    vstd::seq_lib::lemma_multiset_commutative(b, y);
    vstd::seq_lib::lemma_multiset_commutative(c, z);
    vstd::seq_lib::lemma_multiset_commutative(b + y, c + z);
    assert((a + x).to_multiset() =~= ((b + y) + (c + z)).to_multiset());
}

/// Of a node, a walk prints the rows of its names in this subvolume, and what
/// the scan prints of the subvolumes below.
proof fn lemma_entry(w: World, m: Marks, top: Place, n: Node)
    requires
        serves_both(w.opts),
        aligned(top),
        sound(w, m, top, n),
    ensures
        joins(
            walk_rows(w, crate::walk_laws::entry_effects(w.opts, entries_dir(top), walk_entry(n))),
            name_rows(w, top, names(w, top, n)),
            scan_rows(w, crate::scan_laws::scan_entry(m, top, scan_node(n)).1),
        ),
    decreases n, 1int,
{
    let place = crate::scan::entry_place(top, n.name);
    let path = place.dir;
    let ids = (n.stat.dev, n.stat.ino);
    let shown = crate::walk_laws::entry_effects(w.opts, entries_dir(top), walk_entry(n));
    let scanned = crate::scan_laws::scan_entry(m, top, scan_node(n)).1;
    let mine = if n.stat.dev == top.dev {
        seq![Name { rel: place.rel, flags: (w.inodes)(path) }]
    } else {
        seq![]
    };
    let own = list_rows(w, path);
    let list = seq![WalkEffect::List(path)];
    let none = Seq::<Seq<u8>>::empty();
    lemma_aligned(top, n.name, n.stat.dev);
    lemma_one_walk_effect(w, path);
    lemma_no_names(w, top);
    crate::paths::law_names_by_bytes(n.name);
    crate::paths::law_names_by_bytes(path);
    if !crate::scan_steps::is_self_or_parent(n.name) && !(is_directory(n) && is_nested(
        n,
        top.dev,
    )) {
        if n.stat.dev == top.dev {
            lemma_list_rows(w, top, place);
        } else {
            assert(own =~= none);
        }
        assert(own == name_rows(w, top, mine));
    }
    if crate::scan_steps::is_self_or_parent(n.name) {
        assert(shown =~= seq![]);
        assert(none + none =~= none);
    } else if !is_directory(n) {
        assert(shown =~= list);
        assert(own + none =~= own);
    } else {
        let inner = crate::walk_laws::children_effects(w.opts, path, walk_entries(n.children));
        assert(shown =~= list + inner);
        lemma_walk_rows_concat(w, list, inner);
        if is_nested(n, top.dev) {
            let nested = crate::scan::nested_place(place, n.stat.dev);
            let fresh = Marks {
                subvols: m.subvols.insert(n.stat.dev),
                emitted: m.emitted || n.emitted,
                ..m
            };
            let marks = crate::scan_laws::noted(fresh, Some(ids));
            let below = crate::scan_laws::scan_children(marks, nested, scan_nodes(n.children)).1;
            let first = seq![ScanEffect::List(nested.dir)];
            let sweep = seq![ScanEffect::Sweep(nested)];
            assert(scanned =~= first + (sweep + below));
            lemma_scan_rows_concat(w, first, sweep + below);
            lemma_scan_rows_concat(w, sweep, below);
            lemma_one_scan_effect(w, ScanEffect::List(nested.dir));
            lemma_one_scan_effect(w, ScanEffect::Sweep(nested));
            lemma_sweep_agrees(w, nested, n.children);
            lemma_entries(w, marks, nested, n.children);
            lemma_nested_rows(
                own,
                walk_rows(w, inner),
                name_rows(w, nested, names_in(w, nested, n.children)),
                swept_rows(w, nested),
                scan_rows(w, below),
            );
        } else {
            let subdir = crate::scan::subdir_place(place);
            let marks = crate::scan_laws::noted(m, Some(ids));
            let found = names_in(w, subdir, n.children);
            assert(scanned =~= crate::scan_laws::scan_children(
                marks,
                subdir,
                scan_nodes(n.children),
            ).1);
            lemma_entries(w, marks, subdir, n.children);
            lemma_name_rows_concat(w, top, mine, found);
            assert(name_rows(w, subdir, found) == name_rows(w, top, found));
            assert(own + none =~= own);
            assert(none + scan_rows(w, scanned) =~= scan_rows(w, scanned));
            lemma_joins_concat(
                own,
                own,
                none,
                walk_rows(w, inner),
                name_rows(w, top, found),
                scan_rows(w, scanned),
            );
        }
    }
}

/// Listing a nested root and then sweeping it prints what the walk prints of it
/// and its files.
proof fn lemma_nested_rows(
    own: Seq<Seq<u8>>,
    walked: Seq<Seq<u8>>,
    found: Seq<Seq<u8>>,
    swept: Seq<Seq<u8>>,
    below: Seq<Seq<u8>>,
)
    requires
        joins(walked, found, below),
        swept.to_multiset() == found.to_multiset(),
    ensures
        joins(own + walked, seq![], own + (swept + below)),
{
    broadcast use vstd::multiset::group_multiset_axioms;

    vstd::seq_lib::lemma_multiset_commutative(own, walked);
    vstd::seq_lib::lemma_multiset_commutative(found, below);
    vstd::seq_lib::lemma_multiset_commutative(swept, below);
    vstd::seq_lib::lemma_multiset_commutative(own, swept + below);
    assert(Seq::<Seq<u8>>::empty() + (own + (swept + below)) =~= own + (swept + below));
    assert((own + walked).to_multiset() =~= (own + (swept + below)).to_multiset());
}

/// The same for the nodes `children` of a directory.
proof fn lemma_entries(w: World, m: Marks, top: Place, children: Seq<Node>)
    requires
        serves_both(w.opts),
        aligned(top),
        sound_in(w, m, top, children),
    ensures
        joins(
            walk_rows(
                w,
                crate::walk_laws::children_effects(w.opts, entries_dir(top), walk_entries(children)),
            ),
            name_rows(w, top, names_in(w, top, children)),
            scan_rows(w, crate::scan_laws::scan_children(m, top, scan_nodes(children)).1),
        ),
    decreases children, 0int,
{
    let entries = walk_entries(children);
    let nodes = scan_nodes(children);
    if children.len() == 0 {
        let none = Seq::<Seq<u8>>::empty();
        lemma_no_names(w, top);
        assert(none + none =~= none);
    } else {
        let n = children[0];
        let rest = children.drop_first();
        let (k, first) = crate::scan_laws::scan_entry(m, top, scan_node(n));
        let more = crate::scan_laws::scan_children(k, top, scan_nodes(rest)).1;
        let shown = crate::walk_laws::entry_effects(w.opts, entries_dir(top), walk_entry(n));
        let others = crate::walk_laws::children_effects(w.opts, entries_dir(top), walk_entries(rest));
        assert(entries[0] == walk_entry(n));
        assert(entries.drop_first() =~= walk_entries(rest));
        assert(nodes[0] == scan_node(n));
        assert(nodes.drop_first() =~= scan_nodes(rest));
        lemma_entry(w, m, top, n);
        lemma_entries(w, k, top, rest);
        lemma_walk_rows_concat(w, shown, others);
        lemma_scan_rows_concat(w, first, more);
        lemma_name_rows_concat(w, top, names(w, top, n), names_in(w, top, rest));
        lemma_joins_concat(
            walk_rows(w, shown),
            name_rows(w, top, names(w, top, n)),
            scan_rows(w, first),
            walk_rows(w, others),
            name_rows(w, top, names_in(w, top, rest)),
            scan_rows(w, more),
        );
    }
}

/// Nothing that a scan finds in a sound tree counts as an error.
proof fn lemma_no_fault(w: World, m: Marks, top: Place, n: Node)
    requires
        aligned(top),
        sound(w, m, top, n),
    ensures
        crate::scan_laws::scan_entry(m, top, scan_node(n)).0.had_err == m.had_err,
    decreases n, 1int,
{
    let place = crate::scan::entry_place(top, n.name);
    let ids = (n.stat.dev, n.stat.ino);
    lemma_aligned(top, n.name, n.stat.dev);
    crate::paths::law_names_by_bytes(n.name);
    crate::paths::law_names_by_bytes(place.dir);
    if !crate::scan_steps::is_self_or_parent(n.name) && is_directory(n) {
        if is_nested(n, top.dev) {
            let fresh = Marks {
                subvols: m.subvols.insert(n.stat.dev),
                emitted: m.emitted || n.emitted,
                ..m
            };
            lemma_no_faults(
                w,
                crate::scan_laws::noted(fresh, Some(ids)),
                crate::scan::nested_place(place, n.stat.dev),
                n.children,
            );
        } else {
            lemma_no_faults(
                w,
                crate::scan_laws::noted(m, Some(ids)),
                crate::scan::subdir_place(place),
                n.children,
            );
        }
    }
}

proof fn lemma_no_faults(w: World, m: Marks, top: Place, children: Seq<Node>)
    requires
        aligned(top),
        sound_in(w, m, top, children),
    ensures
        crate::scan_laws::scan_children(m, top, scan_nodes(children)).0.had_err == m.had_err,
    decreases children, 0int,
{
    if children.len() > 0 {
        let n = children[0];
        let rest = children.drop_first();
        let k = crate::scan_laws::scan_entry(m, top, scan_node(n)).0;
        assert(scan_nodes(children)[0] == scan_node(n));
        assert(scan_nodes(children).drop_first() =~= scan_nodes(rest));
        lemma_no_fault(w, m, top, n);
        lemma_no_faults(w, k, top, rest);
    }
}

proof fn lemma_pipe_holds(n: Node)
    ensures
        crate::scan_laws::pipe_holds(scan_node(n)),
    decreases n, 1int,
{
    lemma_pipe_holds_in(n.children);
}

proof fn lemma_pipe_holds_in(children: Seq<Node>)
    ensures
        crate::scan_laws::pipe_holds_in(scan_nodes(children)),
    decreases children, 0int,
{
    if children.len() > 0 {
        let rest = children.drop_first();
        assert(scan_nodes(children)[0] == scan_node(children[0]));
        assert(scan_nodes(children).drop_first() =~= scan_nodes(rest));
        lemma_pipe_holds(children[0]);
        lemma_pipe_holds_in(rest);
    }
}

/// A filtered run over the root of a subvolume prints the same rows by tree
/// search as by walking every file, each as often, the roots of nested
/// subvolumes among them; only their order may differ. Neither way counts an
/// error.
///
/// See [`sound`] and [`agrees`] for what is asked of the files: in short, that
/// the inode items are those of the files and tell what `FS_IOC_GETFLAGS`
/// tells.
pub proof fn law_same_rows_with_and_without_privilege(w: World, root: Node)
    requires
        serves_both(w.opts),
        is_directory(root),
        !crate::scan_steps::unusable(root.name),
        ({
            let s = ScanState::start(w.opts, root.name, root.stat.dev);
            let ids = (root.stat.dev, root.stat.ino);
            &&& agrees(w, s.hand, root.children)
            &&& sound_in(
                w,
                crate::scan_laws::noted(
                    Marks { emitted: root.emitted, ..s.marks() },
                    Some(ids),
                ),
                s.hand,
                root.children,
            )
        }),
    ensures
        ({
            let s = ScanState::start(w.opts, root.name, root.stat.dev);
            let (swept, scanned) = crate::scan_laws::scan_run(
                s,
                seq![ScanEvent::Swept(root.emitted)] + crate::scan_laws::dir_events(
                    Marks { emitted: root.emitted, ..s.marks() },
                    s.hand,
                    None,
                    scan_node(root),
                ),
            );
            let (walked, shown) = crate::walk_laws::walk_run(
                WalkState::start(w.opts),
                crate::walk_laws::arg_events(w.opts, walk_entry(root)),
            );
            &&& swept.phase is Finished && !swept.had_err
            &&& walked.phase is Idle && !walked.had_err
            &&& scan_rows(w, scanned).to_multiset() == walk_rows(w, shown).to_multiset()
        }),
{
    let path = root.name;
    crate::paths::law_names_by_bytes(path);
    let dev = root.stat.dev;
    let ids = (dev, root.stat.ino);
    let s = ScanState::start(w.opts, path, dev);
    let e = scan_node(root);
    let arg = walk_entry(root);
    let m = Marks { emitted: root.emitted, ..s.marks() };
    let marks = crate::scan_laws::noted(m, Some(ids));
    let sweep = seq![ScanEffect::Sweep(s.hand)];
    let below = crate::scan_laws::scan_children(marks, s.hand, scan_nodes(root.children)).1;
    let dir = crate::walk::arg_dir(w.opts, path);
    let inner = crate::walk_laws::children_effects(w.opts, dir, walk_entries(root.children));
    crate::paths::law_trim(path);
    crate::paths::law_squeeze(path);
    assert(aligned(s.hand));
    lemma_pipe_holds(root);
    crate::scan_laws::law_scan_of_a_subvolume(w.opts, path, dev, e);
    crate::walk_laws::law_walk_of_an_argument(WalkState::start(w.opts), arg);
    let scanned = crate::scan_laws::scan_run(
        s,
        seq![ScanEvent::Swept(root.emitted)] + crate::scan_laws::dir_events(m, s.hand, None, e),
    ).1;
    let shown = crate::walk_laws::walk_run(
        WalkState::start(w.opts),
        crate::walk_laws::arg_events(w.opts, arg),
    ).1;
    assert(scanned =~= sweep + below);
    assert(shown =~= inner);
    lemma_no_faults(w, marks, s.hand, root.children);
    lemma_scan_rows_concat(w, sweep, below);
    lemma_one_scan_effect(w, ScanEffect::Sweep(s.hand));
    lemma_sweep_agrees(w, s.hand, root.children);
    lemma_entries(w, marks, s.hand, root.children);
    let none = Seq::<Seq<u8>>::empty();
    lemma_nested_rows(
        none,
        walk_rows(w, inner),
        name_rows(w, s.hand, names_in(w, s.hand, root.children)),
        swept_rows(w, s.hand),
        scan_rows(w, below),
    );
    assert(none + walk_rows(w, inner) =~= walk_rows(w, inner));
    assert(none + (none + scan_rows(w, scanned)) =~= scan_rows(w, scanned));
}

} // verus!
