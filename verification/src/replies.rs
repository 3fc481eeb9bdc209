//! The replies that the kernel writes, and that they are read back as they were
//! written: the laws of the byte formats in [`btrfs`](crate::btrfs).

use vstd::prelude::*;

use crate::ascii::NUL;
use crate::btrfs::{
    BatchEnd, InodeFlags, Lookup, BTRFS_INODE_ITEM_KEY, CONTAINER_BYTES, SEARCH_BUF_BYTES,
    SEARCH_NR_ITEMS,
};
use crate::bytes::{law_u32_reads_back, law_u64_reads_back, ByteOrder};
use crate::errors::DataError;

verus! {

/// What a record of a search reply holds: an inode item, whose flags field
/// comes after 64 bytes of other fields, or something else.
pub enum Body {
    Inode { before: Seq<u8>, flags: u64, after: Seq<u8> },
    Other { typ: u32, payload: Seq<u8> },
}

/// One record of a search reply.
pub struct Record {
    pub transid: u64,
    pub objectid: u64,
    pub offset: u64,
    pub body: Body,
}

/// The type of a record: 1 for an inode item.
pub open spec fn type_of(r: Record) -> u32 {
    match r.body {
        Body::Inode { .. } => 1,
        Body::Other { typ, .. } => typ,
    }
}

/// The payload of a record. The flags of an inode are little-endian, as they
/// are on disk.
pub open spec fn payload_of(r: Record) -> Seq<u8> {
    match r.body {
        Body::Inode { before, flags, after } => before + crate::bytes::u64_bytes(
            ByteOrder::Little,
            flags,
        ) + after,
        Body::Other { payload, .. } => payload,
    }
}

/// The record is as the kernel writes them: an inode item with 64 bytes before
/// its flags; or of another type, or too short to hold flags. Its length fits
/// in its field.
pub open spec fn is_record(r: Record) -> bool {
    &&& payload_of(r).len() <= u32::MAX
    &&& match r.body {
        Body::Inode { before, .. } => before.len() == 64,
        Body::Other { typ, payload } => typ != 1 || payload.len() < 72,
    }
}

/// All of them are.
pub open spec fn are_records(records: Seq<Record>) -> bool {
    forall|i: int| 0 <= i < records.len() ==> is_record(#[trigger] records[i])
}

/// The header of a record with the payload length `len`.
#[verifier::opaque]
pub open spec fn header_with(order: ByteOrder, r: Record, len: u32) -> Seq<u8> {
    crate::bytes::u64_bytes(order, r.transid) + crate::bytes::u64_bytes(order, r.objectid)
        + crate::bytes::u64_bytes(order, r.offset) + crate::bytes::u32_bytes(order, type_of(r))
        + crate::bytes::u32_bytes(order, len)
}

/// The header of a record.
pub open spec fn header_of(order: ByteOrder, r: Record) -> Seq<u8> {
    header_with(order, r, payload_of(r).len() as u32)
}

/// Records as the kernel lays them out: header and payload, one after another.
pub open spec fn records_bytes(order: ByteOrder, records: Seq<Record>) -> Seq<u8>
    decreases records.len(),
{
    if records.len() == 0 {
        seq![]
    } else {
        header_of(order, records[0]) + payload_of(records[0]) + records_bytes(
            order,
            records.drop_first(),
        )
    }
}

/// The record is an inode item with a flags field.
pub open spec fn is_inode_item(r: Record) -> bool {
    r.body is Inode
}

/// The inode of a record, if it is an inode item, with the flags that were
/// written.
pub open spec fn inode_of(r: Record) -> Seq<InodeFlags> {
    match r.body {
        Body::Inode { flags, .. } => seq![InodeFlags { objectid: r.objectid, flags }],
        Body::Other { .. } => seq![],
    }
}

/// The inodes among the records, in order, each with the flags that were
/// written.
pub open spec fn inodes_of(records: Seq<Record>) -> Seq<InodeFlags>
    decreases records.len(),
{
    if records.len() == 0 {
        seq![]
    } else {
        inode_of(records[0]) + inodes_of(records.drop_first())
    }
}

/// Where to go on after the objectid `last`.
pub open spec fn after(last: u64) -> BatchEnd {
    if last == 0xffff_ffff_ffff_ffff {
        BatchEnd::Last
    } else {
        BatchEnd::Next((last + 1) as u64)
    }
}

/// What follows the records.
pub open spec fn end_of(records: Seq<Record>) -> BatchEnd {
    if records.len() == 0 {
        BatchEnd::Last
    } else {
        after(records.last().objectid)
    }
}

/// A search reply: the key up to the number of items, that number, the rest of
/// the key and the buffer size, the records, and the rest of the buffer.
pub open spec fn search_reply(
    order: ByteOrder,
    head: Seq<u8>,
    announced: u32,
    mid: Seq<u8>,
    records: Seq<Record>,
    rest: Seq<u8>,
) -> Seq<u8> {
    head + crate::bytes::u32_bytes(order, announced) + mid + records_bytes(order, records) + rest
}

/// The fields of a header can be read where it was written.
proof fn lemma_header(order: ByteOrder, r: Record, len: u32, before: Seq<u8>, after: Seq<u8>)
    ensures
        header_with(order, r, len).len() == 32,
        ({
            let buf = before + header_with(order, r, len) + after;
            let p = before.len() as int;
            &&& crate::bytes::u64_at(order, buf, p + 8) == r.objectid
            &&& crate::bytes::u32_at(order, buf, p + 24) == type_of(r)
            &&& crate::bytes::u32_at(order, buf, p + 28) == len
        }),
{
    reveal(header_with);
    let transid = crate::bytes::u64_bytes(order, r.transid);
    let objectid = crate::bytes::u64_bytes(order, r.objectid);
    let offset = crate::bytes::u64_bytes(order, r.offset);
    let typ = crate::bytes::u32_bytes(order, type_of(r));
    let size = crate::bytes::u32_bytes(order, len);
    let buf = before + header_with(order, r, len) + after;
    law_u64_reads_back(order, r.transid, seq![], seq![]);
    law_u64_reads_back(order, r.offset, seq![], seq![]);
    law_u64_reads_back(order, r.objectid, before + transid, offset + typ + size + after);
    assert(buf =~= (before + transid) + objectid + (offset + typ + size + after));
    law_u32_reads_back(order, type_of(r), before + transid + objectid + offset, size + after);
    assert(buf =~= (before + transid + objectid + offset) + typ + (size + after));
    law_u32_reads_back(order, len, before + transid + objectid + offset + typ, after);
    assert(buf =~= (before + transid + objectid + offset + typ) + size + after);
}

/// The flags of an inode item can be read where they were written.
proof fn lemma_flags(r: Record, before: Seq<u8>, rest: Seq<u8>)
    requires
        is_record(r),
        is_inode_item(r),
    ensures
        crate::btrfs::item_flags(before + payload_of(r) + rest, before.len() as int)
            == r.body->Inode_flags,
        payload_of(r).len() >= 72,
{
    if let Body::Inode { before: fields, flags, after } = r.body {
        let field = crate::bytes::u64_bytes(ByteOrder::Little, flags);
        law_u64_reads_back(ByteOrder::Little, flags, before + fields, after + rest);
        assert(before + payload_of(r) + rest =~= (before + fields) + field + (after + rest));
    }
}

/// `a` put before the inodes that are read after it.
spec fn with_first(a: Seq<InodeFlags>, batch: (Seq<InodeFlags>, BatchEnd)) -> (
    Seq<InodeFlags>,
    BatchEnd,
) {
    (a + batch.0, batch.1)
}

/// One record is read back; then reading goes on after it.
proof fn lemma_record(
    order: ByteOrder,
    before: Seq<u8>,
    r: Record,
    after: Seq<u8>,
    left: nat,
    last: u64,
)
    requires
        is_record(r),
    ensures
        ({
            let buf = before + header_of(order, r) + payload_of(r) + after;
            let end = before.len() + 32 + payload_of(r).len();
            &&& header_of(order, r).len() == 32
            &&& crate::btrfs::batch_from(order, buf, before.len() as int, left + 1, last)
                == with_first(
                inode_of(r),
                crate::btrfs::batch_from(order, buf, end as int, left, r.objectid),
            )
        }),
{
    let header = header_of(order, r);
    let payload = payload_of(r);
    let buf = before + header + payload + after;
    lemma_header(order, r, payload.len() as u32, before, payload + after);
    assert(buf =~= before + header + (payload + after));
    let rest = crate::btrfs::batch_from(
        order,
        buf,
        (before.len() + 32 + payload.len()) as int,
        left,
        r.objectid,
    );
    if is_inode_item(r) {
        lemma_flags(r, before + header, after);
    } else {
        assert(Seq::<InodeFlags>::empty() + rest.0 =~= rest.0);
    }
}

/// Records are read back one after another; then reading goes on after them.
proof fn lemma_records(
    order: ByteOrder,
    before: Seq<u8>,
    records: Seq<Record>,
    rest: Seq<u8>,
    left: nat,
    last: u64,
)
    requires
        are_records(records),
    ensures
        crate::btrfs::batch_from(
            order,
            before + records_bytes(order, records) + rest,
            before.len() as int,
            records.len() + left,
            last,
        ) == with_first(
            inodes_of(records),
            crate::btrfs::batch_from(
                order,
                before + records_bytes(order, records) + rest,
                (before + records_bytes(order, records)).len() as int,
                left,
                if records.len() == 0 {
                    last
                } else {
                    records.last().objectid
                },
            ),
        ),
    decreases records.len(),
{
    let buf = before + records_bytes(order, records) + rest;
    if records.len() > 0 {
        let r = records[0];
        let more = records.drop_first();
        let header = header_of(order, r);
        let payload = payload_of(r);
        let tail = records_bytes(order, more);
        let step = before + header + payload;
        assert(is_record(r));
        assert forall|i: int| 0 <= i < more.len() implies is_record(#[trigger] more[i]) by {
            assert(is_record(records[i + 1]));
        }
        lemma_record(order, before, r, tail + rest, (more.len() + left) as nat, last);
        assert(buf =~= step + (tail + rest));
        lemma_records(order, step, more, rest, left, r.objectid);
        assert(buf =~= step + tail + rest);
        assert(step + tail =~= before + records_bytes(order, records));
        if more.len() > 0 {
            assert(more.last() == records.last());
        }
        let end = crate::btrfs::batch_from(
            order,
            buf,
            (step + tail).len() as int,
            left,
            records.last().objectid,
        );
        assert(inode_of(r) + (inodes_of(more) + end.0) =~= (inode_of(r) + inodes_of(more))
            + end.0);
    } else {
        let end = crate::btrfs::batch_from(order, buf, before.len() as int, left, last);
        assert(before + records_bytes(order, records) =~= before);
        assert(Seq::<InodeFlags>::empty() + end.0 =~= end.0);
    }
}

/// How many records of a reply are read: as many as it announces, but never more
/// than the 4096 that were asked for.
pub open spec fn to_read(announced: u32) -> nat {
    if announced > 4096 {
        4096
    } else {
        announced as nat
    }
}

/// Where the records of a reply start, and how many of them are read.
proof fn lemma_reply(
    order: ByteOrder,
    head: Seq<u8>,
    announced: u32,
    mid: Seq<u8>,
    records: Seq<Record>,
    rest: Seq<u8>,
    min_objectid: u64,
)
    requires
        head.len() == 64,
        mid.len() == 44,
    ensures
        ({
            let buf = search_reply(order, head, announced, mid, records, rest);
            crate::btrfs::batch_of(order, buf, min_objectid) == if announced == 0 {
                (Seq::<InodeFlags>::empty(), BatchEnd::Last)
            } else {
                crate::btrfs::batch_from(order, buf, 112, to_read(announced), min_objectid)
            }
        }),
{
    let buf = search_reply(order, head, announced, mid, records, rest);
    let n = crate::bytes::u32_bytes(order, announced);
    let tail = mid + records_bytes(order, records) + rest;
    law_u32_reads_back(order, announced, head, tail);
    assert(buf =~= head + n + tail);
}

/// A search reply is read back as its records were written: the inodes among
/// them in order, each with all 64 bits of its flags, and the objectid after
/// the last record as the place to go on from. Records of other types are
/// passed over, and so are inode items too short for flags. Only a reply
/// without records, or one that holds the largest objectid, ends the search.
pub proof fn law_search_reply_reads_back(
    order: ByteOrder,
    head: Seq<u8>,
    announced: u32,
    mid: Seq<u8>,
    records: Seq<Record>,
    rest: Seq<u8>,
    min_objectid: u64,
)
    requires
        head.len() == 64,
        mid.len() == 44,
        records.len() == to_read(announced),
        are_records(records),
    ensures
        crate::btrfs::batch_of(
            order,
            search_reply(order, head, announced, mid, records, rest),
            min_objectid,
        ) == (inodes_of(records), end_of(records)),
{
    let n = crate::bytes::u32_bytes(order, announced);
    law_u32_reads_back(order, announced, seq![], seq![]);
    lemma_reply(order, head, announced, mid, records, rest, min_objectid);
    lemma_records(order, head + n + mid, records, rest, 0, min_objectid);
    assert(inodes_of(records) + seq![] =~= inodes_of(records));
}

/// A reply that ends before all the announced records are complete is
/// malformed: the inodes before the cut are read, and then the error says
/// whether the next record's header or its payload does not fit.
pub proof fn law_cut_reply_is_malformed(
    order: ByteOrder,
    head: Seq<u8>,
    announced: u32,
    mid: Seq<u8>,
    records: Seq<Record>,
    next: Record,
    len: u32,
    rest: Seq<u8>,
    min_objectid: u64,
)
    requires
        head.len() == 64,
        mid.len() == 44,
        records.len() < to_read(announced),
        are_records(records),
    ensures
        rest.len() < 32 ==> crate::btrfs::batch_of(
            order,
            search_reply(order, head, announced, mid, records, rest),
            min_objectid,
        ) == (inodes_of(records), BatchEnd::Malformed(DataError::ShortItemHeader)),
        rest.len() < len ==> crate::btrfs::batch_of(
            order,
            search_reply(
                order,
                head,
                announced,
                mid,
                records,
                header_with(order, next, len) + rest,
            ),
            min_objectid,
        ) == (inodes_of(records), BatchEnd::Malformed(DataError::ItemOutsideBuffer)),
{
    let n = crate::bytes::u32_bytes(order, announced);
    let left = (to_read(announced) - records.len()) as nat;
    let none = Seq::<InodeFlags>::empty();
    law_u32_reads_back(order, announced, seq![], seq![]);
    assert(inodes_of(records) + none =~= inodes_of(records));
    if rest.len() < 32 {
        lemma_reply(order, head, announced, mid, records, rest, min_objectid);
        lemma_records(order, head + n + mid, records, rest, left, min_objectid);
    }
    if rest.len() < len {
        let header = header_with(order, next, len);
        let start = head + n + mid + records_bytes(order, records);
        lemma_reply(order, head, announced, mid, records, header + rest, min_objectid);
        lemma_records(order, head + n + mid, records, header + rest, left, min_objectid);
        lemma_header(order, next, len, start, rest);
        assert(search_reply(order, head, announced, mid, records, header + rest) =~= start + header
            + rest);
    }
}

/// An eight-byte field can be read after `head` in a buffer that starts with
/// both.
proof fn lemma_u64_field(order: ByteOrder, buf: Seq<u8>, head: Seq<u8>, x: u64)
    requires
        (head + crate::bytes::u64_bytes(order, x)).is_prefix_of(buf),
    ensures
        crate::bytes::u64_bytes(order, x).len() == 8,
        crate::bytes::u64_at(order, buf, head.len() as int) == x,
        head.is_prefix_of(buf),
{
    let field = head + crate::bytes::u64_bytes(order, x);
    let tail = buf.skip(field.len() as int);
    law_u64_reads_back(order, x, head, tail);
    assert(buf =~= field + tail);
    assert(buf.subrange(0, head.len() as int) =~= head);
}

/// A four-byte field can be read after `head` in a buffer that starts with both.
proof fn lemma_u32_field(order: ByteOrder, buf: Seq<u8>, head: Seq<u8>, x: u32)
    requires
        (head + crate::bytes::u32_bytes(order, x)).is_prefix_of(buf),
    ensures
        crate::bytes::u32_bytes(order, x).len() == 4,
        crate::bytes::u32_at(order, buf, head.len() as int) == x,
        head.is_prefix_of(buf),
{
    let field = head + crate::bytes::u32_bytes(order, x);
    let tail = buf.skip(field.len() as int);
    law_u32_reads_back(order, x, head, tail);
    assert(buf =~= field + tail);
    assert(buf.subrange(0, head.len() as int) =~= head);
}

/// Zero bytes can be read after `head` in a buffer that starts with both.
proof fn lemma_zero_field(buf: Seq<u8>, head: Seq<u8>, n: nat)
    requires
        (head + crate::btrfs::zeros(n)).is_prefix_of(buf),
    ensures
        forall|i: int| head.len() <= i < head.len() + n ==> #[trigger] buf[i] == 0,
        head.is_prefix_of(buf),
{
    let field = head + crate::btrfs::zeros(n);
    assert forall|i: int| head.len() <= i < head.len() + n implies #[trigger] buf[i] == 0 by {
        assert(buf.subrange(0, field.len() as int)[i] == field[i]);
    }
    assert(buf.subrange(0, head.len() as int) =~= field.subrange(0, head.len() as int));
    assert(field.subrange(0, head.len() as int) =~= head);
}

/// A search request asks for the inode items from its cursor on and nothing
/// else: the tree of the descriptor (0), objectids from the cursor up, every
/// offset and every generation, the item type 1 and no other, 4096 items, and
/// an item area of 65536 bytes. What is not a field is zero.
pub proof fn law_search_request_fields(order: ByteOrder, cursor: u64)
    ensures
        ({
            let buf = crate::btrfs::search_request(order, cursor);
            &&& buf.len() == 112 + 65536
            &&& crate::bytes::u64_at(order, buf, 0) == 0
            &&& crate::bytes::u64_at(order, buf, 8) == cursor
            &&& crate::bytes::u64_at(order, buf, 16) == 0xffff_ffff_ffff_ffff
            &&& crate::bytes::u64_at(order, buf, 24) == 0
            &&& crate::bytes::u64_at(order, buf, 32) == 0xffff_ffff_ffff_ffff
            &&& crate::bytes::u64_at(order, buf, 40) == 0
            &&& crate::bytes::u64_at(order, buf, 48) == 0xffff_ffff_ffff_ffff
            &&& crate::bytes::u32_at(order, buf, 56) == 1
            &&& crate::bytes::u32_at(order, buf, 60) == 1
            &&& crate::bytes::u32_at(order, buf, 64) == 4096
            &&& forall|i: int| 68 <= i < 104 ==> #[trigger] buf[i] == 0
            &&& crate::bytes::u64_at(order, buf, 104) == 65536
            &&& forall|i: int| 112 <= i < 112 + 65536 ==> #[trigger] buf[i] == 0
        }),
{
    let zero = crate::bytes::u64_bytes(order, 0);
    let min = crate::bytes::u64_bytes(order, cursor);
    let max = crate::bytes::u64_bytes(order, u64::MAX);
    let typ = crate::bytes::u32_bytes(order, BTRFS_INODE_ITEM_KEY);
    let nr = crate::bytes::u32_bytes(order, SEARCH_NR_ITEMS);
    let unused = crate::btrfs::zeros(36);
    let size = crate::bytes::u64_bytes(order, SEARCH_BUF_BYTES as u64);
    let area = crate::btrfs::zeros(SEARCH_BUF_BYTES as nat);
    let buf = crate::btrfs::search_request(order, cursor);
    let head2 = zero + min;
    let head3 = head2 + max;
    let head4 = head3 + zero;
    let head5 = head4 + max;
    let head6 = head5 + zero;
    let head7 = head6 + max;
    let head8 = head7 + typ;
    let head9 = head8 + typ;
    let head10 = head9 + nr;
    let head11 = head10 + unused;
    let head12 = head11 + size;
    assert(buf =~= head12 + area);
    assert(buf.subrange(0, buf.len() as int) =~= buf);
    lemma_zero_field(buf, head12, SEARCH_BUF_BYTES as nat);
    lemma_u64_field(order, buf, head11, SEARCH_BUF_BYTES as u64);
    lemma_zero_field(buf, head10, 36);
    lemma_u32_field(order, buf, head9, SEARCH_NR_ITEMS);
    lemma_u32_field(order, buf, head8, BTRFS_INODE_ITEM_KEY);
    lemma_u32_field(order, buf, head7, BTRFS_INODE_ITEM_KEY);
    lemma_u64_field(order, buf, head6, u64::MAX);
    lemma_u64_field(order, buf, head5, 0);
    lemma_u64_field(order, buf, head4, u64::MAX);
    lemma_u64_field(order, buf, head3, 0);
    lemma_u64_field(order, buf, head2, u64::MAX);
    lemma_u64_field(order, buf, zero, cursor);
    assert(seq![] + zero =~= zero);
    lemma_u64_field(order, buf, seq![], 0);
}

/// A path lookup names the inode, and the size and address of its buffer; the
/// reserved words are zero.
pub proof fn law_lookup_request_fields(order: ByteOrder, inum: u64, size: u64, address: u64)
    ensures
        ({
            let buf = crate::btrfs::ino_path_request(order, inum, size, address);
            &&& buf.len() == 56
            &&& crate::bytes::u64_at(order, buf, 0) == inum
            &&& crate::bytes::u64_at(order, buf, 8) == size
            &&& forall|i: int| 16 <= i < 48 ==> #[trigger] buf[i] == 0
            &&& crate::bytes::u64_at(order, buf, 48) == address
        }),
{
    let buf = crate::btrfs::ino_path_request(order, inum, size, address);
    let a = crate::bytes::u64_bytes(order, inum);
    let b = crate::bytes::u64_bytes(order, size);
    let c = crate::btrfs::zeros(32);
    let d = crate::bytes::u64_bytes(order, address);
    law_u64_reads_back(order, inum, seq![], b + c + d);
    assert(buf =~= seq![] + a + (b + c + d));
    law_u64_reads_back(order, size, a, c + d);
    assert(buf =~= a + b + (c + d));
    law_u64_reads_back(order, address, a + b + c, seq![]);
    assert(buf =~= (a + b + c) + d + seq![]);
}

/// Bytes without a NUL among them.
pub open spec fn is_string(s: Seq<u8>) -> bool {
    forall|k: int| 0 <= k < s.len() ==> #[trigger] s[k] != 0
}

/// The string area of the first `i` paths.
pub open spec fn strings(paths: Seq<Seq<u8>>, i: int) -> Seq<u8>
    decreases i,
{
    if i <= 0 {
        seq![]
    } else {
        strings(paths, i - 1) + paths[i - 1] + seq![0u8]
    }
}

/// Offset of the `i`-th path in the value area: the table comes first.
pub open spec fn string_offset(paths: Seq<Seq<u8>>, i: int) -> int {
    (8 * paths.len() + strings(paths, i).len()) as int
}

/// The first `i` offsets of the table.
pub open spec fn table(order: ByteOrder, paths: Seq<Seq<u8>>, i: int) -> Seq<u8>
    decreases i,
{
    if i <= 0 {
        seq![]
    } else {
        table(order, paths, i - 1) + crate::bytes::u64_bytes(
            order,
            string_offset(paths, i - 1) as u64,
        )
    }
}

/// The reply to a path lookup: unused bytes, nothing missing, the number of
/// paths, none missed, the offset table, the NUL-terminated paths, and the
/// unused rest of the buffer.
pub open spec fn paths_reply(
    order: ByteOrder,
    bytes_left: u32,
    paths: Seq<Seq<u8>>,
    rest: Seq<u8>,
) -> Seq<u8> {
    crate::bytes::u32_bytes(order, bytes_left) + crate::bytes::u32_bytes(order, 0)
        + crate::bytes::u32_bytes(order, paths.len() as u32) + crate::bytes::u32_bytes(order, 0)
        + table(order, paths, paths.len() as int) + strings(paths, paths.len() as int) + rest
}

/// A search for a NUL byte stops at the first.
proof fn lemma_nul_from(val: Seq<u8>, off: int, end: int)
    requires
        0 <= off <= end < val.len(),
        val[end] == NUL,
        forall|k: int| off <= k < end ==> #[trigger] val[k] != NUL,
    ensures
        crate::btrfs::nul_from(val, off) == Some(end),
    decreases end - off,
{
    if off < end {
        lemma_nul_from(val, off + 1, end);
    }
}

/// The string area of the first `i` paths is where it is in that of all.
proof fn lemma_strings(paths: Seq<Seq<u8>>, i: int, n: int)
    requires
        0 <= i <= n <= paths.len(),
    ensures
        strings(paths, i).len() <= strings(paths, n).len(),
        strings(paths, n).take(strings(paths, i).len() as int) == strings(paths, i),
    decreases n - i,
{
    if i < n {
        lemma_strings(paths, i, n - 1);
        assert(strings(paths, n).take(strings(paths, i).len() as int) =~= strings(
            paths,
            n - 1,
        ).take(strings(paths, i).len() as int));
    } else {
        assert(strings(paths, n).take(strings(paths, n).len() as int) =~= strings(paths, n));
    }
}

/// The first `i` offsets are where they are in the whole table.
proof fn lemma_table(order: ByteOrder, paths: Seq<Seq<u8>>, i: int, n: int)
    requires
        0 <= i <= n <= paths.len(),
    ensures
        table(order, paths, n).len() == 8 * n,
        table(order, paths, n).take(8 * i) == table(order, paths, i),
    decreases n,
{
    if n > 0 {
        law_u64_reads_back(order, string_offset(paths, n - 1) as u64, seq![], seq![]);
        if i < n {
            lemma_table(order, paths, i, n - 1);
            assert(table(order, paths, n).take(8 * i) =~= table(order, paths, n - 1).take(8 * i));
        } else {
            lemma_table(order, paths, n - 1, n - 1);
            assert(table(order, paths, n).take(8 * n) =~= table(order, paths, n));
        }
    } else {
        assert(table(order, paths, n).take(0) =~= seq![]);
    }
}

/// The value area of the reply with the paths `paths`.
spec fn value_area(order: ByteOrder, paths: Seq<Seq<u8>>, rest: Seq<u8>) -> Seq<u8> {
    table(order, paths, paths.len() as int) + strings(paths, paths.len() as int) + rest
}

/// The `i`-th offset can be read from the value area.
proof fn lemma_offset_at(order: ByteOrder, paths: Seq<Seq<u8>>, rest: Seq<u8>, i: int)
    requires
        0 <= i < paths.len(),
        string_offset(paths, i) <= u64::MAX,
    ensures
        crate::bytes::u64_at(order, value_area(order, paths, rest), 8 * i) == string_offset(
            paths,
            i,
        ),
{
    let n = paths.len() as int;
    let full = table(order, paths, n);
    let front = table(order, paths, i);
    let off = string_offset(paths, i);
    let entry = crate::bytes::u64_bytes(order, off as u64);
    let back = full.skip(8 * (i + 1)) + strings(paths, n) + rest;
    lemma_table(order, paths, i, i);
    lemma_table(order, paths, i + 1, n);
    assert(full.take(8 * (i + 1)) == front + entry);
    assert(full =~= full.take(8 * (i + 1)) + full.skip(8 * (i + 1)));
    assert(value_area(order, paths, rest) =~= front + entry + back);
    law_u64_reads_back(order, off as u64, front, back);
}

/// The `i`-th path stands in the value area at its offset, and a NUL byte after
/// it.
proof fn lemma_string_at(order: ByteOrder, paths: Seq<Seq<u8>>, rest: Seq<u8>, i: int)
    requires
        0 <= i < paths.len(),
    ensures
        ({
            let val = value_area(order, paths, rest);
            let off = string_offset(paths, i);
            let end = off + paths[i].len();
            &&& 8 * paths.len() <= off
            &&& end < val.len()
            &&& end < string_offset(paths, paths.len() as int)
            &&& val.subrange(off, end) == paths[i]
            &&& val[end] == NUL
        }),
{
    let n = paths.len() as int;
    let full = table(order, paths, n);
    let all = strings(paths, n);
    let before = strings(paths, i);
    let upto = strings(paths, i + 1);
    let val = value_area(order, paths, rest);
    let off = string_offset(paths, i);
    let end = off + paths[i].len();
    lemma_table(order, paths, n, n);
    lemma_strings(paths, i + 1, n);
    assert(upto == before + paths[i] + seq![NUL]);
    assert forall|k: int| 0 <= k < upto.len() implies #[trigger] val[8 * n + k] == upto[k] by {
        assert(all.take(upto.len() as int)[k] == upto[k]);
    }
    assert forall|k: int| 0 <= k < paths[i].len() implies val.subrange(off, end)[k]
        == #[trigger] paths[i][k] by {
        assert(val[8 * n + (before.len() + k)] == upto[before.len() + k]);
    }
    assert(val.subrange(off, end) =~= paths[i]);
    assert(val[8 * n + (upto.len() - 1)] == upto[upto.len() - 1]);
}

/// The `i`-th path can be read from the value area.
proof fn lemma_path_at(order: ByteOrder, paths: Seq<Seq<u8>>, rest: Seq<u8>, i: int)
    requires
        0 <= i < paths.len(),
        string_offset(paths, paths.len() as int) <= u64::MAX,
        forall|k: int| 0 <= k < paths.len() ==> is_string(#[trigger] paths[k]),
    ensures
        crate::btrfs::path_at(order, value_area(order, paths, rest), paths.len(), i) == Ok::<
            Seq<u8>,
            DataError,
        >(paths[i]),
{
    let val = value_area(order, paths, rest);
    let off = string_offset(paths, i);
    let end = off + paths[i].len();
    lemma_string_at(order, paths, rest, i);
    lemma_offset_at(order, paths, rest, i);
    assert(is_string(paths[i]));
    assert forall|k: int| off <= k < end implies #[trigger] val[k] != NUL by {
        assert(val.subrange(off, end)[k - off] == paths[i][k - off]);
    }
    lemma_nul_from(val, off, end);
}

/// The paths from the `i`-th on can be read from the value area.
proof fn lemma_paths_from(order: ByteOrder, paths: Seq<Seq<u8>>, rest: Seq<u8>, i: int)
    requires
        0 <= i <= paths.len(),
        string_offset(paths, paths.len() as int) <= u64::MAX,
        forall|k: int| 0 <= k < paths.len() ==> is_string(#[trigger] paths[k]),
    ensures
        crate::btrfs::paths_from(order, value_area(order, paths, rest), paths.len(), i) == Ok::<
            Seq<Seq<u8>>,
            DataError,
        >(paths.skip(i)),
    decreases paths.len() - i,
{
    if i < paths.len() {
        lemma_path_at(order, paths, rest, i);
        lemma_paths_from(order, paths, rest, i + 1);
        assert(seq![paths[i]] + paths.skip(i + 1) =~= paths.skip(i));
    } else {
        assert(paths.skip(i) =~= seq![]);
    }
}

/// A complete path reply is read back as its paths were written, whatever the
/// size of the buffer.
pub proof fn law_paths_reply_reads_back(
    order: ByteOrder,
    bytes_left: u32,
    paths: Seq<Seq<u8>>,
    rest: Seq<u8>,
    size: int,
)
    requires
        paths.len() <= u32::MAX,
        8 * paths.len() <= usize::MAX,
        string_offset(paths, paths.len() as int) <= u64::MAX,
        forall|k: int| 0 <= k < paths.len() ==> is_string(#[trigger] paths[k]),
    ensures
        crate::btrfs::lookup(order, paths_reply(order, bytes_left, paths, rest), size)
            == Lookup::Paths(paths),
{
    let n = paths.len() as int;
    let buf = paths_reply(order, bytes_left, paths, rest);
    let val = value_area(order, paths, rest);
    let left = crate::bytes::u32_bytes(order, bytes_left);
    let zero = crate::bytes::u32_bytes(order, 0);
    let cnt = crate::bytes::u32_bytes(order, n as u32);
    law_u32_reads_back(order, bytes_left, seq![], zero + cnt + zero + val);
    law_u32_reads_back(order, 0, left, cnt + zero + val);
    assert(buf =~= left + zero + (cnt + zero + val));
    law_u32_reads_back(order, n as u32, left + zero, zero + val);
    assert(buf =~= (left + zero) + cnt + (zero + val));
    law_u32_reads_back(order, 0, left + zero + cnt, val);
    assert(buf =~= (left + zero + cnt) + zero + val);
    assert(buf.skip(CONTAINER_BYTES as int) =~= val);
    lemma_table(order, paths, n, n);
    lemma_paths_from(order, paths, rest, 0);
    assert(paths.skip(0) =~= paths);
}

/// The `i`-th table entry of the reply `buf`, an offset into what follows the
/// 16 bytes of its header.
pub open spec fn entry_of(order: ByteOrder, buf: Seq<u8>, i: int) -> int {
    crate::bytes::u64_at(order, buf, 16 + 8 * i) as int
}

/// The `i`-th table entry of the reply `buf` points to the path `path`: behind
/// the table of `cnt` entries, inside the buffer, with a NUL byte after it.
pub open spec fn points_to(
    order: ByteOrder,
    buf: Seq<u8>,
    cnt: nat,
    i: int,
    path: Seq<u8>,
) -> bool {
    let start = 16 + entry_of(order, buf, i);
    &&& entry_of(order, buf, i) >= 8 * cnt
    &&& start + path.len() < buf.len()
    &&& buf.subrange(start, start + path.len()) == path
    &&& is_string(path)
    &&& buf[start + path.len()] == 0
}

/// The `i`-th table entry of the reply `buf` points to some path.
pub open spec fn points_somewhere(order: ByteOrder, buf: Seq<u8>, cnt: nat, i: int) -> bool {
    exists|path: Seq<u8>| points_to(order, buf, cnt, i, path)
}

/// The `i`-th table entry of the reply `buf` points to no path, for the reason
/// `e`.
pub open spec fn points_nowhere(
    order: ByteOrder,
    buf: Seq<u8>,
    cnt: nat,
    i: int,
    e: DataError,
) -> bool {
    let start = 16 + entry_of(order, buf, i);
    match e {
        DataError::OffsetOutsideBuffer => start >= buf.len(),
        DataError::OffsetInTable => start < buf.len() && entry_of(order, buf, i) < 8 * cnt,
        DataError::Unterminated => start < buf.len() && entry_of(order, buf, i) >= 8 * cnt && (
        forall|k: int| start <= k < buf.len() ==> #[trigger] buf[k] != 0),
        _ => false,
    }
}

/// A search for a NUL byte finds none exactly when there is none.
proof fn lemma_nul_found(val: Seq<u8>, off: int)
    requires
        0 <= off <= val.len(),
    ensures
        match crate::btrfs::nul_from(val, off) {
            Some(end) => off <= end < val.len() && val[end] == 0 && forall|k: int|
                off <= k < end ==> #[trigger] val[k] != 0,
            None => forall|k: int| off <= k < val.len() ==> #[trigger] val[k] != 0,
        },
    decreases val.len() - off,
{
    if off < val.len() {
        lemma_nul_found(val, off + 1);
    }
}

/// What the `i`-th table entry is read as.
proof fn lemma_entry(order: ByteOrder, buf: Seq<u8>, cnt: nat, i: int)
    requires
        16 + 8 * cnt <= buf.len(),
        0 <= i < cnt,
    ensures
        match crate::btrfs::path_at(order, buf.skip(16), cnt, i) {
            Ok(path) => points_to(order, buf, cnt, i, path),
            Err(e) => points_nowhere(order, buf, cnt, i, e),
        },
{
    let val = buf.skip(16);
    assert(0 <= entry_of(order, buf, i) == crate::bytes::u64_at(order, val, 8 * i)) by {
        reveal(crate::bytes::u32_at);
        reveal(crate::bytes::u64_at);
    }
    let off = entry_of(order, buf, i);
    if off < val.len() {
        lemma_nul_found(val, off);
        if let Some(end) = crate::btrfs::nul_from(val, off) {
            assert(buf.subrange(16 + off, 16 + end) =~= val.subrange(off, end));
        } else {
            assert forall|k: int| 16 + off <= k < buf.len() implies #[trigger] buf[k] != 0 by {
                assert(val[k - 16] != 0);
            }
        }
    }
}

/// What the table entries from the `i`-th on are read as.
proof fn lemma_entries(order: ByteOrder, buf: Seq<u8>, cnt: nat, i: int)
    requires
        16 + 8 * cnt <= buf.len(),
        0 <= i <= cnt,
    ensures
        match crate::btrfs::paths_from(order, buf.skip(16), cnt, i) {
            Ok(paths) => paths.len() == cnt - i && forall|k: int|
                i <= k < cnt ==> points_to(order, buf, cnt, k, #[trigger] paths[k - i]),
            Err(e) => exists|k: int|
                i <= k < cnt && #[trigger] points_nowhere(order, buf, cnt, k, e) && forall|j: int|
                    i <= j < k ==> #[trigger] points_somewhere(order, buf, cnt, j),
        },
    decreases cnt - i,
{
    if i < cnt {
        lemma_entry(order, buf, cnt, i);
        lemma_entries(order, buf, cnt, i + 1);
        let rest = crate::btrfs::paths_from(order, buf.skip(16), cnt, i + 1);
        match crate::btrfs::path_at(order, buf.skip(16), cnt, i) {
            Ok(path) => match rest {
                Ok(more) => {
                    let paths = seq![path] + more;
                    assert forall|k: int| i <= k < cnt implies points_to(
                        order,
                        buf,
                        cnt,
                        k,
                        #[trigger] paths[k - i],
                    ) by {
                        if k > i {
                            assert(paths[k - i] == more[k - (i + 1)]);
                        }
                    }
                },
                Err(e) => {
                    let k = choose|k: int|
                        i + 1 <= k < cnt && #[trigger] points_nowhere(order, buf, cnt, k, e)
                            && forall|j: int|
                            i + 1 <= j < k ==> #[trigger] points_somewhere(order, buf, cnt, j);
                    assert(points_nowhere(order, buf, cnt, k, e));
                    assert(points_somewhere(order, buf, cnt, i));
                },
            },
            Err(e) => {
                assert(points_nowhere(order, buf, cnt, i, e));
            },
        }
    }
}

/// What a reply to a path lookup amounts to, field by field.
///
/// A buffer under 16 bytes has no header. In the header the second field says
/// how many bytes did not fit, the third how many paths there are and the
/// fourth how many were left out. If anything is missing, a buffer below 16 MiB
/// is enlarged and a larger one is an error. Otherwise the table must fit, and
/// the reply is read as the paths that its entries point to, in order, or as
/// the error of the first entry that points to none.
pub proof fn law_lookup_by_fields(order: ByteOrder, buf: Seq<u8>, size: int)
    requires
        0 <= size,
    ensures
        buf.len() < 16 ==> crate::btrfs::lookup(order, buf, size) == Lookup::Malformed(
            DataError::ShortContainer,
        ),
        buf.len() >= 16 ==> ({
            let missing = crate::bytes::u32_at(order, buf, 4);
            let cnt = crate::bytes::u32_at(order, buf, 8) as nat;
            let missed = crate::bytes::u32_at(order, buf, 12);
            let read = crate::btrfs::lookup(order, buf, size);
            if missing != 0 || missed != 0 {
                &&& size >= 16777216 ==> read == Lookup::Malformed(DataError::BufferLimit)
                &&& size < 16777216 ==> read is Retry
                &&& size < 16777216 ==> size < read->Retry_0 <= 16777216
                &&& size < 16777216 && size + missing + 4096 < 16777216 ==> read->Retry_0 >= size
                    + missing + 4096
                &&& size < 16777216 && 2 * size < 16777216 ==> read->Retry_0 >= 2 * size
                &&& size < 16777216 ==> read->Retry_0 == 16777216 || read->Retry_0 == 2 * size
                    || read->Retry_0 == size + missing + 4096
                &&& size < 16777216 && 2 * size < 16777216 && size + missing + 4096 < 16777216
                    ==> read->Retry_0 < 16777216
            } else if 8 * cnt > usize::MAX {
                read == Lookup::Malformed(DataError::CountOverflow)
            } else if 16 + 8 * cnt > buf.len() {
                read == Lookup::Malformed(DataError::TableOutsideBuffer)
            } else {
                match read {
                    Lookup::Paths(paths) => paths.len() == cnt && forall|k: int|
                        0 <= k < cnt ==> points_to(order, buf, cnt, k, #[trigger] paths[k]),
                    Lookup::Retry(_) => false,
                    Lookup::Malformed(e) => exists|k: int|
                        0 <= k < cnt && #[trigger] points_nowhere(order, buf, cnt, k, e)
                            && forall|j: int|
                            0 <= j < k ==> #[trigger] points_somewhere(order, buf, cnt, j),
                }
            }
        }),
{
    if buf.len() >= 16 {
        let cnt = crate::bytes::u32_at(order, buf, 8) as nat;
        assert(crate::btrfs::container_at(order, buf).bytes_missing == crate::bytes::u32_at(
            order,
            buf,
            4,
        ) && crate::btrfs::container_at(order, buf).elem_cnt == cnt && crate::btrfs::container_at(
            order,
            buf,
        ).elem_missed == crate::bytes::u32_at(order, buf, 12)) by {
            reveal(crate::bytes::u32_at);
        }
        if 16 + 8 * cnt <= buf.len() {
            lemma_entries(order, buf, cnt, 0);
            if let Ok(paths) = crate::btrfs::paths_from(order, buf.skip(16), cnt, 0) {
                assert forall|k: int| 0 <= k < cnt implies points_to(
                    order,
                    buf,
                    cnt,
                    k,
                    #[trigger] paths[k],
                ) by {
                    assert(points_to(order, buf, cnt, k, paths[k - 0]));
                }
            }
        }
    }
}

} // verus!
