//! The byte formats of the two btrfs ioctls behind the `--has` fast path:
//! `BTRFS_IOC_TREE_SEARCH_V2`, which streams inode items out of a subvolume's
//! B-tree, and `BTRFS_IOC_INO_PATHS`, which resolves an inode to its paths.
//! Issuing the ioctls is the caller's part.

use vstd::prelude::*;
use vstd::slice::slice_subrange;

use crate::ascii::NUL;
use crate::bytes::{push_u32, push_u64, read_u32, read_u64, ByteOrder};
use crate::errors::DataError;

verus! {

pub const BTRFS_IOCTL_MAGIC: u32 = 0x94;

/// Key type of an inode item, the only item type that a sweep asks for.
pub const BTRFS_INODE_ITEM_KEY: u32 = 1;

/// Offset of `flags` in a packed `btrfs_inode_item`: five eight-byte fields,
/// four four-byte fields and `rdev` come before it.
pub const INODE_ITEM_FLAGS_OFF: usize = 64;

/// Size of `struct btrfs_ioctl_search_args_v2`: key and buffer size.
pub const SEARCH_ARGS_BYTES: usize = 112;

/// Size of `struct btrfs_ioctl_search_header`, which precedes each item.
pub const SEARCH_HEADER_BYTES: usize = 32;

/// Size of the item area of a search.
pub const SEARCH_BUF_BYTES: usize = 65536;

/// Most items that one search asks for.
pub const SEARCH_NR_ITEMS: u32 = 4096;

/// Size of `struct btrfs_ioctl_ino_path_args`.
pub const INO_PATH_ARGS_BYTES: usize = 56;

/// Size of the header of `struct btrfs_data_container`.
pub const CONTAINER_BYTES: usize = 16;

/// First size of the path buffer.
pub const FSPATH_BUF_BYTES: usize = 16384;

/// Size that the path buffer never exceeds.
pub const MAX_FSPATH_BUF_BYTES: usize = 16777216;

/// `_IOWR(0x94, 17, struct btrfs_ioctl_search_args_v2)`.
pub const BTRFS_IOC_TREE_SEARCH_V2: u64 = 0xC070_9411;

/// `_IOWR(0x94, 35, struct btrfs_ioctl_ino_path_args)`.
pub const BTRFS_IOC_INO_PATHS: u64 = 0xC038_9423;

/// The kernel's `_IOC` encoding: direction in bits 30 and up, size in bits 16
/// and up, type in bits 8 and up, number below.
pub open spec fn ioc(dir: u32, ty: u32, nr: u32, size: u32) -> u32 {
    (dir << 30u32) | (size << 16u32) | (ty << 8u32) | nr
}

/// The request number of a read-write ioctl.
pub fn ioc_rw(ty: u32, nr: u32, size: u32) -> (request: libc::c_ulong)
    ensures
        request == ioc(3, ty, nr, size),
{
    ((3u32 << 30u32) | (size << 16u32) | (ty << 8u32) | nr) as libc::c_ulong
}

/// The request number of a read-only ioctl.
pub fn ioc_r(ty: u32, nr: u32, size: u32) -> (request: libc::c_ulong)
    ensures
        request == ioc(2, ty, nr, size),
{
    ((2u32 << 30u32) | (size << 16u32) | (ty << 8u32) | nr) as libc::c_ulong
}

/// For fields that fit their widths the encoding is their positional sum, so
/// that no two requests share a number.
pub proof fn law_ioc_fields(dir: u32, ty: u32, nr: u32, size: u32)
    requires
        dir < 4,
        ty < 0x100,
        nr < 0x100,
        size < 0x4000,
    ensures
        ioc(dir, ty, nr, size) == dir * 0x4000_0000 + size * 0x1_0000 + ty * 0x100 + nr,
{
    assert(ioc(dir, ty, nr, size) == dir * 0x4000_0000 + size * 0x1_0000 + ty * 0x100 + nr)
        by (bit_vector)
        requires
            dir < 4,
            ty < 0x100,
            nr < 0x100,
            size < 0x4000,
    ;
}

/// The two btrfs request numbers are the encodings of their definitions:
/// read-write requests 17 and 35 of the type `0x94`, with structures of 112 and
/// 56 bytes.
pub proof fn law_btrfs_requests()
    ensures
        BTRFS_IOC_TREE_SEARCH_V2 == ioc(3, BTRFS_IOCTL_MAGIC, 17, SEARCH_ARGS_BYTES as u32),
        BTRFS_IOC_INO_PATHS == ioc(3, BTRFS_IOCTL_MAGIC, 35, INO_PATH_ARGS_BYTES as u32),
        BTRFS_IOC_TREE_SEARCH_V2 == 0xC000_0000 + 112 * 0x1_0000 + 0x94 * 0x100 + 17,
        BTRFS_IOC_INO_PATHS == 0xC000_0000 + 56 * 0x1_0000 + 0x94 * 0x100 + 35,
{
    law_ioc_fields(3, BTRFS_IOCTL_MAGIC, 17, SEARCH_ARGS_BYTES as u32);
    law_ioc_fields(3, BTRFS_IOCTL_MAGIC, 35, INO_PATH_ARGS_BYTES as u32);
}

/// `n` zero bytes.
pub open spec fn zeros(n: nat) -> Seq<u8> {
    Seq::new(n, |i: int| 0u8)
}

/// The key of a search for the inode items from `min_objectid` on, in the tree
/// that the descriptor lives in.
pub open spec fn search_key_bytes(order: ByteOrder, min_objectid: u64) -> Seq<u8> {
    crate::bytes::u64_bytes(order, 0)  // tree_id
        + crate::bytes::u64_bytes(order, min_objectid)  // min_objectid
        + crate::bytes::u64_bytes(order, u64::MAX)  // max_objectid
        + crate::bytes::u64_bytes(order, 0)  // min_offset
        + crate::bytes::u64_bytes(order, u64::MAX)  // max_offset
        + crate::bytes::u64_bytes(order, 0)  // min_transid
        + crate::bytes::u64_bytes(order, u64::MAX)  // max_transid
        + crate::bytes::u32_bytes(order, BTRFS_INODE_ITEM_KEY)  // min_type
        + crate::bytes::u32_bytes(order, BTRFS_INODE_ITEM_KEY)  // max_type
        + crate::bytes::u32_bytes(order, SEARCH_NR_ITEMS)  // nr_items
        + zeros(36)  // unused

}

/// The argument buffer of a search: key, size of the item area, item area.
pub open spec fn search_request(order: ByteOrder, min_objectid: u64) -> Seq<u8> {
    search_key_bytes(order, min_objectid) + crate::bytes::u64_bytes(order, SEARCH_BUF_BYTES as u64)
        + zeros(SEARCH_BUF_BYTES as nat)
}

/// Append `n` zero bytes.
fn push_zeros(w: &mut Vec<u8>, n: usize)
    ensures
        final(w)@ == old(w)@ + zeros(n as nat),
{
    let mut area: Vec<u8> = vec![0u8; n];
    assert(area@ =~= zeros(n as nat));
    w.append(&mut area);
}

/// The argument buffer of a search for the inode items from `min_objectid` on.
pub fn search_args(min_objectid: u64, order: ByteOrder) -> (buf: Vec<u8>)
    ensures
        buf@ == search_request(order, min_objectid),
        buf@.len() == SEARCH_ARGS_BYTES + SEARCH_BUF_BYTES,
{
    let mut buf: Vec<u8> = Vec::new();
    push_u64(&mut buf, 0, order);
    push_u64(&mut buf, min_objectid, order);
    push_u64(&mut buf, u64::MAX, order);
    push_u64(&mut buf, 0, order);
    push_u64(&mut buf, u64::MAX, order);
    push_u64(&mut buf, 0, order);
    push_u64(&mut buf, u64::MAX, order);
    push_u32(&mut buf, BTRFS_INODE_ITEM_KEY, order);
    push_u32(&mut buf, BTRFS_INODE_ITEM_KEY, order);
    push_u32(&mut buf, SEARCH_NR_ITEMS, order);
    push_zeros(&mut buf, 36);
    assert(buf@ =~= search_key_bytes(order, min_objectid));
    push_u64(&mut buf, SEARCH_BUF_BYTES as u64, order);
    push_zeros(&mut buf, SEARCH_BUF_BYTES);
    assert(buf@ =~= search_request(order, min_objectid));
    buf
}

/// An inode and the flags that its inode item holds.
#[derive(Clone, Copy, PartialEq, Eq, Debug, Structural)]
pub struct InodeFlags {
    pub objectid: u64,
    pub flags: u64,
}

/// What follows the items of one search reply.
#[derive(Clone, Copy, PartialEq, Eq, Debug, Structural)]
pub enum BatchEnd {
    /// Search again from this objectid on.
    Next(u64),
    /// There is nothing left to search.
    Last,
    /// The rest of the reply is malformed.
    Malformed(DataError),
}

/// The inode items of one search reply, and what follows them.
pub struct Batch {
    pub items: Vec<InodeFlags>,
    pub end: BatchEnd,
}

/// Offset of `nr_items` in the search key.
pub const NR_ITEMS_OFF: usize = 64;

/// The flags field of the inode item at `item`, little-endian as on disk.
pub open spec fn item_flags(buf: Seq<u8>, item: int) -> u64 {
    crate::bytes::u64_at(ByteOrder::Little, buf, item + INODE_ITEM_FLAGS_OFF) as u64
}

/// The items of a reply from offset `p` on, of which `left` are announced, and
/// what follows them; `last` is the objectid of the item before `p`.
///
/// An item is a header (transid, objectid, offset, type, length) and as many
/// bytes as its length says. Only inode items that are long enough to hold a
/// flags field count; the others are stepped over.
pub open spec fn batch_from(
    order: ByteOrder,
    buf: Seq<u8>,
    p: int,
    left: nat,
    last: u64,
) -> (Seq<InodeFlags>, BatchEnd)
    decreases left,
{
    let objectid = crate::bytes::u64_at(order, buf, p + 8) as u64;
    let typ = crate::bytes::u32_at(order, buf, p + 24);
    let len = crate::bytes::u32_at(order, buf, p + 28);
    let item = p + SEARCH_HEADER_BYTES;
    if left == 0 {
        (
            seq![],
            if last == u64::MAX {
                BatchEnd::Last
            } else {
                BatchEnd::Next((last + 1) as u64)
            },
        )
    } else if item > buf.len() {
        (seq![], BatchEnd::Malformed(DataError::ShortItemHeader))
    } else if item + len > buf.len() {
        (seq![], BatchEnd::Malformed(DataError::ItemOutsideBuffer))
    } else {
        let (rest, end) = batch_from(order, buf, item + len, (left - 1) as nat, objectid);
        if typ == BTRFS_INODE_ITEM_KEY && len >= INODE_ITEM_FLAGS_OFF + 8 {
            (seq![InodeFlags { objectid, flags: item_flags(buf, item) }] + rest, end)
        } else {
            (rest, end)
        }
    }
}

/// Number of items that a reply announces, at most as many as were asked for.
pub open spec fn returned_items(order: ByteOrder, buf: Seq<u8>) -> nat {
    let n = crate::bytes::u32_at(order, buf, NR_ITEMS_OFF as int);
    if n < SEARCH_NR_ITEMS {
        n as nat
    } else {
        SEARCH_NR_ITEMS as nat
    }
}

/// The whole reply to a search from `min_objectid` on. No item at all is the
/// end of the tree.
pub open spec fn batch_of(order: ByteOrder, buf: Seq<u8>, min_objectid: u64) -> (
    Seq<InodeFlags>,
    BatchEnd,
) {
    if returned_items(order, buf) == 0 {
        (seq![], BatchEnd::Last)
    } else {
        batch_from(
            order,
            buf,
            SEARCH_ARGS_BYTES as int,
            returned_items(order, buf),
            min_objectid,
        )
    }
}

/// Read the reply to a search from `min_objectid` on: the inodes in it, in
/// order, and where to go on.
pub fn scan_flags(buf: &[u8], min_objectid: u64, order: ByteOrder) -> (batch: Batch)
    requires
        buf@.len() >= SEARCH_ARGS_BYTES,
    ensures
        (batch.items@, batch.end) == batch_of(order, buf@, min_objectid),
{
    let announced = read_u32(buf, NR_ITEMS_OFF, order);
    let returned: u32 = if announced < SEARCH_NR_ITEMS {
        announced
    } else {
        SEARCH_NR_ITEMS
    };
    let mut items: Vec<InodeFlags> = Vec::new();
    if returned == 0 {
        assert(items@ =~= seq![]);
        return Batch { items, end: BatchEnd::Last };
    }
    let mut p: usize = SEARCH_ARGS_BYTES;
    let mut last: u64 = min_objectid;
    let mut left: u32 = returned;
    let ghost whole = batch_of(order, buf@, min_objectid);
    assert(whole.0 =~= items@ + batch_from(order, buf@, p as int, left as nat, last).0);
    while left > 0
        invariant
            SEARCH_ARGS_BYTES <= p <= buf@.len(),
            whole.0 == items@ + batch_from(order, buf@, p as int, left as nat, last).0,
            whole.1 == batch_from(order, buf@, p as int, left as nat, last).1,
            whole == batch_of(order, buf@, min_objectid),
        decreases left,
    {
        let ghost rest = batch_from(order, buf@, p as int, left as nat, last);
        if buf.len() - p < SEARCH_HEADER_BYTES {
            assert(whole.0 =~= items@);
            return Batch { items, end: BatchEnd::Malformed(DataError::ShortItemHeader) };
        }
        let objectid = read_u64(buf, p + 8, order);
        let typ = read_u32(buf, p + 24, order);
        let len = read_u32(buf, p + 28, order);
        let item: usize = p + SEARCH_HEADER_BYTES;
        if len as usize > buf.len() - item {
            assert(whole.0 =~= items@);
            return Batch { items, end: BatchEnd::Malformed(DataError::ItemOutsideBuffer) };
        }
        let ghost before = items@;
        let ghost tail = batch_from(
            order,
            buf@,
            (item + len) as int,
            (left - 1) as nat,
            objectid,
        ).0;
        if typ == BTRFS_INODE_ITEM_KEY && len as usize >= INODE_ITEM_FLAGS_OFF + 8 {
            let flags = read_u64(buf, item + INODE_ITEM_FLAGS_OFF, ByteOrder::Little);
            items.push(InodeFlags { objectid, flags });
        }
        assert(before + rest.0 =~= items@ + tail);
        last = objectid;
        p = item + len as usize;
        left -= 1;
    }
    assert(whole.0 =~= items@);
    if last == u64::MAX {
        Batch { items, end: BatchEnd::Last }
    } else {
        Batch { items, end: BatchEnd::Next(last + 1) }
    }
}

/// The argument structure of a path lookup: inode, size of the path buffer,
/// four reserved words, address of the path buffer.
pub open spec fn ino_path_request(order: ByteOrder, inum: u64, size: u64, address: u64) -> Seq<u8> {
    crate::bytes::u64_bytes(order, inum) + crate::bytes::u64_bytes(order, size) + zeros(32)
        + crate::bytes::u64_bytes(order, address)
}

/// The argument structure of a lookup of the paths of `inum` into a buffer of
/// `size` bytes at `address`.
pub fn ino_path_args(inum: u64, size: u64, address: u64, order: ByteOrder) -> (buf: Vec<u8>)
    ensures
        buf@ == ino_path_request(order, inum, size, address),
        buf@.len() == INO_PATH_ARGS_BYTES,
{
    let mut buf: Vec<u8> = Vec::new();
    push_u64(&mut buf, inum, order);
    push_u64(&mut buf, size, order);
    push_zeros(&mut buf, 32);
    push_u64(&mut buf, address, order);
    assert(buf@ =~= ino_path_request(order, inum, size, address));
    buf
}

/// The header of a path lookup's reply: how many bytes did not fit, how many
/// paths there are, how many were left out.
#[derive(Clone, Copy, PartialEq, Eq, Debug, Structural)]
pub struct DataContainer {
    pub bytes_missing: u32,
    pub elem_cnt: u32,
    pub elem_missed: u32,
}

/// The header at the start of `buf`.
pub open spec fn container_at(order: ByteOrder, buf: Seq<u8>) -> DataContainer {
    DataContainer {
        bytes_missing: crate::bytes::u32_at(order, buf, 4) as u32,
        elem_cnt: crate::bytes::u32_at(order, buf, 8) as u32,
        elem_missed: crate::bytes::u32_at(order, buf, 12) as u32,
    }
}

/// Read the header of a path lookup's reply.
pub fn read_data_container(buf: &[u8], order: ByteOrder) -> (r: Result<DataContainer, DataError>)
    ensures
        r == if buf@.len() < CONTAINER_BYTES {
            Err::<DataContainer, DataError>(DataError::ShortContainer)
        } else {
            Ok(container_at(order, buf@))
        },
{
    if buf.len() < CONTAINER_BYTES {
        return Err(DataError::ShortContainer);
    }
    let bytes_missing = read_u32(buf, 4, order);
    let elem_cnt = read_u32(buf, 8, order);
    let elem_missed = read_u32(buf, 12, order);
    Ok(DataContainer { bytes_missing, elem_cnt, elem_missed })
}

/// The next size of a path buffer of `current` bytes that was `missing` bytes
/// short: room for those and a page of slack, at least double, at most the
/// limit.
pub open spec fn grown(current: int, missing: int) -> int {
    let wanted = current + missing + 4096;
    let doubled = 2 * current;
    let size = if wanted > doubled {
        wanted
    } else {
        doubled
    };
    if size < MAX_FSPATH_BUF_BYTES {
        size
    } else {
        MAX_FSPATH_BUF_BYTES as int
    }
}

/// The next size for a path buffer that was too small; an error once it has
/// reached the limit.
pub fn grow_fspath_buffer(current: usize, missing: usize) -> (r: Result<usize, DataError>)
    ensures
        match r {
            Ok(size) => current < MAX_FSPATH_BUF_BYTES && size == grown(
                current as int,
                missing as int,
            ),
            Err(e) => current >= MAX_FSPATH_BUF_BYTES && e == DataError::BufferLimit,
        },
{
    if current >= MAX_FSPATH_BUF_BYTES {
        return Err(DataError::BufferLimit);
    }
    let requested: usize = match current.checked_add(missing) {
        Some(v) => match v.checked_add(4096) {
            Some(v) => v,
            None => MAX_FSPATH_BUF_BYTES,
        },
        None => MAX_FSPATH_BUF_BYTES,
    };
    let doubled: usize = current * 2;
    let size: usize = if requested > doubled {
        requested
    } else {
        doubled
    };
    if size < MAX_FSPATH_BUF_BYTES {
        Ok(size)
    } else {
        Ok(MAX_FSPATH_BUF_BYTES)
    }
}

/// A path buffer grows at every retry: to the larger of its double and what was
/// missing with a page of slack, or to 16 MiB where that is less.
pub proof fn law_buffer_growth(current: int, missing: int)
    requires
        0 <= current < 16777216,
        0 <= missing,
    ensures
        current < grown(current, missing) <= 16777216,
        grown(current, missing) >= 2 * current || grown(current, missing) == 16777216,
        grown(current, missing) >= current + missing + 4096 || grown(current, missing) == 16777216,
        grown(current, missing) < 16777216 ==> grown(current, missing) == 2 * current || grown(
            current,
            missing,
        ) == current + missing + 4096,
        2 * current < 16777216 && current + missing + 4096 < 16777216 ==> grown(current, missing)
            < 16777216,
{
}

/// The size of a path buffer after one retry for each of the shortfalls in
/// `missing`; it stays at the limit.
pub open spec fn after_retries(missing: Seq<int>) -> int
    decreases missing.len(),
{
    if missing.len() == 0 {
        FSPATH_BUF_BYTES as int
    } else {
        let size = after_retries(missing.drop_last());
        if size < MAX_FSPATH_BUF_BYTES {
            grown(size, missing.last())
        } else {
            size
        }
    }
}

proof fn lemma_retries_double(missing: Seq<int>)
    requires
        forall|i: int| 0 <= i < missing.len() ==> #[trigger] missing[i] >= 0,
    ensures
        FSPATH_BUF_BYTES <= after_retries(missing) <= MAX_FSPATH_BUF_BYTES,
        after_retries(missing) == MAX_FSPATH_BUF_BYTES || after_retries(missing)
            >= FSPATH_BUF_BYTES * vstd::arithmetic::power2::pow2(missing.len()),
    decreases missing.len(),
{
    let n = missing.len();
    if n == 0 {
        vstd::arithmetic::power2::lemma2_to64();
    } else {
        let before = missing.drop_last();
        assert forall|i: int| 0 <= i < before.len() implies #[trigger] before[i] >= 0 by {
            assert(missing[i] >= 0);
        }
        lemma_retries_double(before);
        assert(missing.last() >= 0);
        vstd::arithmetic::power2::lemma_pow2_unfold(n);
    }
}

/// A lookup starts with a buffer of 16 KiB, and one whose replies stay
/// incomplete is not retried for ever: after ten retries the buffer has reached
/// its limit, whatever the shortfalls were, and the next shortfall is an error.
pub proof fn law_retries_end(missing: Seq<int>, order: ByteOrder, buf: Seq<u8>)
    requires
        missing.len() >= 10,
        forall|i: int| 0 <= i < missing.len() ==> #[trigger] missing[i] >= 0,
    ensures
        after_retries(seq![]) == 16384,
        after_retries(missing) == 16777216,
        !(lookup(order, buf, after_retries(missing)) is Retry),
{
    lemma_retries_double(missing);
    vstd::arithmetic::power2::lemma2_to64();
    if missing.len() > 10 {
        vstd::arithmetic::power2::lemma_pow2_strictly_increases(10, missing.len());
    }
}

/// Position of the first NUL byte in `val` at or after `off`.
pub open spec fn nul_from(val: Seq<u8>, off: int) -> Option<int>
    decreases val.len() - off,
{
    if off < 0 || off >= val.len() {
        None
    } else if val[off] == NUL {
        Some(off)
    } else {
        nul_from(val, off + 1)
    }
}

/// The `i`-th of `cnt` paths in the value area `val` of a reply: a table of
/// `cnt` offsets, then the NUL-terminated strings that they point to.
pub open spec fn path_at(order: ByteOrder, val: Seq<u8>, cnt: nat, i: int) -> Result<
    Seq<u8>,
    DataError,
> {
    let off = crate::bytes::u64_at(order, val, 8 * i);
    if off >= val.len() {
        Err(DataError::OffsetOutsideBuffer)
    } else if off < 8 * cnt {
        Err(DataError::OffsetInTable)
    } else {
        match nul_from(val, off) {
            None => Err(DataError::Unterminated),
            Some(end) => Ok(val.subrange(off, end)),
        }
    }
}

/// The paths from the `i`-th on, or the error of the first that is malformed.
pub open spec fn paths_from(order: ByteOrder, val: Seq<u8>, cnt: nat, i: int) -> Result<
    Seq<Seq<u8>>,
    DataError,
>
    decreases cnt - i,
{
    if i >= cnt {
        Ok(seq![])
    } else {
        match path_at(order, val, cnt, i) {
            Err(e) => Err(e),
            Ok(path) => match paths_from(order, val, cnt, i + 1) {
                Err(e) => Err(e),
                Ok(rest) => Ok(seq![path] + rest),
            },
        }
    }
}

/// The paths in a reply that announces `cnt` of them.
pub open spec fn reply_paths(order: ByteOrder, buf: Seq<u8>, cnt: nat) -> Result<
    Seq<Seq<u8>>,
    DataError,
> {
    let val = buf.skip(CONTAINER_BYTES as int);
    if 8 * cnt > usize::MAX {
        Err(DataError::CountOverflow)
    } else if 8 * cnt > val.len() {
        Err(DataError::TableOutsideBuffer)
    } else {
        paths_from(order, val, cnt, 0)
    }
}

/// The contents of a list of byte slices.
pub open spec fn slices(v: Seq<&[u8]>) -> Seq<Seq<u8>> {
    Seq::new(v.len(), |i: int| v[i]@)
}

/// Position of the first NUL byte in `val` at or after `off`.
fn find_nul(val: &[u8], off: usize) -> (r: Option<usize>)
    requires
        off <= val@.len(),
    ensures
        match r {
            Some(end) => nul_from(val@, off as int) == Some(end as int) && off <= end < val@.len(),
            None => nul_from(val@, off as int) is None,
        },
{
    let mut i: usize = off;
    while i < val.len()
        invariant
            off <= i <= val@.len(),
            nul_from(val@, off as int) == nul_from(val@, i as int),
        decreases val@.len() - i,
    {
        if val[i] == NUL {
            return Some(i);
        }
        i += 1;
    }
    None
}

/// The paths in a lookup's reply, in order; the first malformed one is an
/// error.
pub fn parse_ino_path_buf<'a>(
    container: &DataContainer,
    buf: &'a [u8],
    order: ByteOrder,
) -> (r: Result<Vec<&'a [u8]>, DataError>)
    requires
        buf@.len() >= CONTAINER_BYTES,
    ensures
        match r {
            Ok(paths) => reply_paths(order, buf@, container.elem_cnt as nat) == Ok::<
                Seq<Seq<u8>>,
                DataError,
            >(slices(paths@)),
            Err(e) => reply_paths(order, buf@, container.elem_cnt as nat) == Err::<
                Seq<Seq<u8>>,
                DataError,
            >(e),
        },
{
    let val = slice_subrange(buf, CONTAINER_BYTES, buf.len());
    assert(val@ =~= buf@.skip(CONTAINER_BYTES as int));
    let cnt: usize = container.elem_cnt as usize;
    let offset_bytes: usize = match cnt.checked_mul(8) {
        Some(n) => n,
        None => {
            return Err(DataError::CountOverflow);
        },
    };
    if offset_bytes > val.len() {
        return Err(DataError::TableOutsideBuffer);
    }
    let mut paths: Vec<&'a [u8]> = Vec::new();
    let mut i: usize = 0;
    let ghost whole = paths_from(order, val@, cnt as nat, 0);
    proof {
        if let Ok(rest) = whole {
            assert(rest =~= slices(paths@) + rest);
        }
    }
    while i < cnt
        invariant
            i <= cnt,
            offset_bytes == 8 * cnt,
            offset_bytes <= val@.len(),
            match paths_from(order, val@, cnt as nat, i as int) {
                Ok(rest) => whole == Ok::<Seq<Seq<u8>>, DataError>(slices(paths@) + rest),
                Err(e) => whole == Err::<Seq<Seq<u8>>, DataError>(e),
            },
            whole == reply_paths(order, buf@, cnt as nat),
            cnt == container.elem_cnt,
        decreases cnt - i,
    {
        let off64 = read_u64(val, 8 * i, order);
        if off64 >= val.len() as u64 {
            return Err(DataError::OffsetOutsideBuffer);
        }
        let off = off64 as usize;
        if off < offset_bytes {
            return Err(DataError::OffsetInTable);
        }
        let ghost before = slices(paths@);
        match find_nul(val, off) {
            Some(end) => {
                paths.push(slice_subrange(val, off, end));
                assert(slices(paths@) =~= before.push(val@.subrange(off as int, end as int)));
                proof {
                    if let Ok(rest) = paths_from(order, val@, cnt as nat, i + 1) {
                        assert(before + (seq![val@.subrange(off as int, end as int)] + rest)
                            =~= slices(paths@) + rest);
                    }
                }
            },
            None => {
                return Err(DataError::Unterminated);
            },
        }
        i += 1;
    }
    proof {
        assert(slices(paths@) + seq![] =~= slices(paths@));
    }
    Ok(paths)
}

/// What a path lookup's reply amounts to.
pub enum InoPaths<'a> {
    /// The paths, relative to the subvolume root; none for an orphan.
    Paths(Vec<&'a [u8]>),
    /// The buffer was too small: look up again with one of this size.
    Retry(usize),
}

/// What a path lookup's reply amounts to, by contents.
pub enum Lookup {
    Paths(Seq<Seq<u8>>),
    Retry(int),
    Malformed(DataError),
}

/// What the reply `buf` to a lookup with a path buffer of `size` bytes amounts
/// to: the paths if all of them fit, else a retry with a larger buffer.
pub open spec fn lookup(order: ByteOrder, buf: Seq<u8>, size: int) -> Lookup {
    let container = container_at(order, buf);
    if buf.len() < CONTAINER_BYTES {
        Lookup::Malformed(DataError::ShortContainer)
    } else if container.bytes_missing == 0 && container.elem_missed == 0 {
        match reply_paths(order, buf, container.elem_cnt as nat) {
            Ok(paths) => Lookup::Paths(paths),
            Err(e) => Lookup::Malformed(e),
        }
    } else if size >= MAX_FSPATH_BUF_BYTES {
        Lookup::Malformed(DataError::BufferLimit)
    } else {
        Lookup::Retry(grown(size, container.bytes_missing as int))
    }
}

/// Read the reply `buf` to a path lookup with a path buffer of `size` bytes.
pub fn ino_paths<'a>(buf: &'a [u8], size: usize, order: ByteOrder) -> (r: Result<
    InoPaths<'a>,
    DataError,
>)
    ensures
        lookup(order, buf@, size as int) == match r {
            Ok(InoPaths::Paths(paths)) => Lookup::Paths(slices(paths@)),
            Ok(InoPaths::Retry(next)) => Lookup::Retry(next as int),
            Err(e) => Lookup::Malformed(e),
        },
{
    let container = match read_data_container(buf, order) {
        Ok(c) => c,
        Err(e) => {
            return Err(e);
        },
    };
    if container.bytes_missing == 0 && container.elem_missed == 0 {
        return match parse_ino_path_buf(&container, buf, order) {
            Ok(paths) => Ok(InoPaths::Paths(paths)),
            Err(e) => Err(e),
        };
    }
    match grow_fspath_buffer(size, container.bytes_missing as usize) {
        Ok(next) => Ok(InoPaths::Retry(next)),
        Err(e) => Err(e),
    }
}

} // verus!
