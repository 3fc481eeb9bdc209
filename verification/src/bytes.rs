//! Integers in kernel structures: fixed-width fields in the byte order of the
//! machine, or little-endian where the disk format fixes it.

use vstd::prelude::*;

verus! {

/// The byte order in which the kernel fills in its structures.
#[derive(Clone, Copy, PartialEq, Eq, Debug, Structural)]
pub enum ByteOrder {
    Little,
    Big,
}

/// Byte `i` of an `n`-byte field at `off`, counted from the least significant.
pub open spec fn byte_at(order: ByteOrder, s: Seq<u8>, off: int, n: int, i: int) -> int {
    match order {
        ByteOrder::Little => s[off + i] as int,
        ByteOrder::Big => s[off + n - 1 - i] as int,
    }
}

/// The four-byte field at `off`.
#[verifier::opaque]
pub open spec fn u32_at(order: ByteOrder, s: Seq<u8>, off: int) -> int {
    byte_at(order, s, off, 4, 0) + 0x100 * byte_at(order, s, off, 4, 1) + 0x1_0000 * byte_at(
        order,
        s,
        off,
        4,
        2,
    ) + 0x100_0000 * byte_at(order, s, off, 4, 3)
}

/// The eight-byte field at `off`.
#[verifier::opaque]
pub open spec fn u64_at(order: ByteOrder, s: Seq<u8>, off: int) -> int {
    byte_at(order, s, off, 8, 0) + 0x100 * byte_at(order, s, off, 8, 1) + 0x1_0000 * byte_at(
        order,
        s,
        off,
        8,
        2,
    ) + 0x100_0000 * byte_at(order, s, off, 8, 3) + 0x1_0000_0000 * byte_at(order, s, off, 8, 4)
        + 0x100_0000_0000 * byte_at(order, s, off, 8, 5) + 0x1_0000_0000_0000 * byte_at(
        order,
        s,
        off,
        8,
        6,
    ) + 0x100_0000_0000_0000 * byte_at(order, s, off, 8, 7)
}

/// The four bytes of `x`.
pub open spec fn u32_bytes(order: ByteOrder, x: u32) -> Seq<u8> {
    let b0 = (x % 0x100) as u8;
    let b1 = (x / 0x100 % 0x100) as u8;
    let b2 = (x / 0x1_0000 % 0x100) as u8;
    let b3 = (x / 0x100_0000) as u8;
    match order {
        ByteOrder::Little => seq![b0, b1, b2, b3],
        ByteOrder::Big => seq![b3, b2, b1, b0],
    }
}

/// The eight bytes of `x`.
pub open spec fn u64_bytes(order: ByteOrder, x: u64) -> Seq<u8> {
    let low = (x % 0x1_0000_0000) as u32;
    let high = (x / 0x1_0000_0000) as u32;
    match order {
        ByteOrder::Little => u32_bytes(order, low) + u32_bytes(order, high),
        ByteOrder::Big => u32_bytes(order, high) + u32_bytes(order, low),
    }
}

/// Read the four-byte field at `off`.
pub fn read_u32(buf: &[u8], off: usize, order: ByteOrder) -> (x: u32)
    requires
        off + 4 <= buf@.len(),
    ensures
        x == u32_at(order, buf@, off as int),
{
    assert(off + 4 <= buf.len());
    proof {
        reveal(u32_at);
    }
    match order {
        ByteOrder::Little => buf[off] as u32 + 0x100 * (buf[off + 1] as u32) + 0x1_0000 * (buf[off
            + 2] as u32) + 0x100_0000 * (buf[off + 3] as u32),
        ByteOrder::Big => buf[off + 3] as u32 + 0x100 * (buf[off + 2] as u32) + 0x1_0000 * (buf[off
            + 1] as u32) + 0x100_0000 * (buf[off] as u32),
    }
}

/// Read the eight-byte field at `off`.
pub fn read_u64(buf: &[u8], off: usize, order: ByteOrder) -> (x: u64)
    requires
        off + 8 <= buf@.len(),
    ensures
        x == u64_at(order, buf@, off as int),
{
    assert(off + 8 <= buf.len());
    let first = read_u32(buf, off, order) as u64;
    let second = read_u32(buf, off + 4, order) as u64;
    proof {
        reveal(u32_at);
        reveal(u64_at);
    }
    match order {
        ByteOrder::Little => first + 0x1_0000_0000 * second,
        ByteOrder::Big => second + 0x1_0000_0000 * first,
    }
}

/// Append the four bytes of `x`.
pub fn push_u32(w: &mut Vec<u8>, x: u32, order: ByteOrder)
    ensures
        final(w)@ == old(w)@ + u32_bytes(order, x),
{
    let b0 = (x % 0x100) as u8;
    let b1 = (x / 0x100 % 0x100) as u8;
    let b2 = (x / 0x1_0000 % 0x100) as u8;
    let b3 = (x / 0x100_0000) as u8;
    match order {
        ByteOrder::Little => {
            w.push(b0);
            w.push(b1);
            w.push(b2);
            w.push(b3);
        },
        ByteOrder::Big => {
            w.push(b3);
            w.push(b2);
            w.push(b1);
            w.push(b0);
        },
    }
    assert(w@ =~= old(w)@ + u32_bytes(order, x));
}

/// Append the eight bytes of `x`.
pub fn push_u64(w: &mut Vec<u8>, x: u64, order: ByteOrder)
    ensures
        final(w)@ == old(w)@ + u64_bytes(order, x),
{
    let low = (x % 0x1_0000_0000) as u32;
    let high = (x / 0x1_0000_0000) as u32;
    match order {
        ByteOrder::Little => {
            push_u32(w, low, order);
            push_u32(w, high, order);
        },
        ByteOrder::Big => {
            push_u32(w, high, order);
            push_u32(w, low, order);
        },
    }
    assert(w@ =~= old(w)@ + u64_bytes(order, x));
}

/// Reading a four-byte field gives back what was written there.
pub proof fn law_u32_reads_back(order: ByteOrder, x: u32, before: Seq<u8>, after: Seq<u8>)
    ensures
        u32_bytes(order, x).len() == 4,
        u32_at(order, before + u32_bytes(order, x) + after, before.len() as int) == x,
{
    reveal(u32_at);
    let s = before + u32_bytes(order, x) + after;
    let n = before.len() as int;
    assert(forall|i: int| 0 <= i < 4 ==> #[trigger] s[n + i] == u32_bytes(order, x)[i]);
    assert(s[n + 0] == u32_bytes(order, x)[0]);
    assert(s[n + 1] == u32_bytes(order, x)[1]);
    assert(s[n + 2] == u32_bytes(order, x)[2]);
    assert(s[n + 3] == u32_bytes(order, x)[3]);
}

/// Reading an eight-byte field gives back what was written there.
pub proof fn law_u64_reads_back(order: ByteOrder, x: u64, before: Seq<u8>, after: Seq<u8>)
    ensures
        u64_bytes(order, x).len() == 8,
        u64_at(order, before + u64_bytes(order, x) + after, before.len() as int) == x,
{
    let low = (x % 0x1_0000_0000) as u32;
    let high = (x / 0x1_0000_0000) as u32;
    let (a, b) = match order {
        ByteOrder::Little => (low, high),
        ByteOrder::Big => (high, low),
    };
    let s = before + u64_bytes(order, x) + after;
    assert(s =~= before + u32_bytes(order, a) + (u32_bytes(order, b) + after));
    assert(s =~= (before + u32_bytes(order, a)) + u32_bytes(order, b) + after);
    law_u32_reads_back(order, a, before, u32_bytes(order, b) + after);
    law_u32_reads_back(order, b, before + u32_bytes(order, a), after);
    let n = before.len() as int;
    reveal(u32_at);
    reveal(u64_at);
    match order {
        ByteOrder::Little => {
            assert(u64_at(order, s, n) == u32_at(order, s, n) + 0x1_0000_0000 * u32_at(
                order,
                s,
                n + 4,
            ));
        },
        ByteOrder::Big => {
            assert(u64_at(order, s, n) == u32_at(order, s, n + 4) + 0x1_0000_0000 * u32_at(
                order,
                s,
                n,
            ));
        },
    }
}

/// The bytes of a four-byte field in little-endian order weigh 1, 256, 65536
/// and 16777216, and sum up to the value; big-endian order is the reverse.
pub proof fn law_u32_layout(x: u32)
    ensures
        ({
            let b = u32_bytes(ByteOrder::Little, x);
            &&& b.len() == 4
            &&& b[0] + 256 * b[1] + 65536 * b[2] + 16777216 * b[3] == x
            &&& u32_bytes(ByteOrder::Big, x) == b.reverse()
        }),
{
    let b = u32_bytes(ByteOrder::Little, x);
    assert(u32_bytes(ByteOrder::Big, x) =~= b.reverse());
}

/// An eight-byte field holds in little-endian order the four bytes of its lower
/// half and then those of its upper half; big-endian order is the reverse.
pub proof fn law_u64_layout(x: u64)
    ensures
        ({
            let b = u64_bytes(ByteOrder::Little, x);
            let low = (x % 4294967296) as u32;
            let high = (x / 4294967296) as u32;
            &&& b.len() == 8
            &&& b.take(4) == u32_bytes(ByteOrder::Little, low)
            &&& b.skip(4) == u32_bytes(ByteOrder::Little, high)
            &&& u64_bytes(ByteOrder::Big, x) == b.reverse()
        }),
{
    let b = u64_bytes(ByteOrder::Little, x);
    assert(b.take(4) =~= u32_bytes(ByteOrder::Little, (x % 4294967296) as u32));
    assert(b.skip(4) =~= u32_bytes(ByteOrder::Little, (x / 4294967296) as u32));
    assert(u64_bytes(ByteOrder::Big, x) =~= b.reverse());
}

/// A field is read from its own bytes, each with its weight.
pub proof fn law_fields_are_sums(s: Seq<u8>, off: int)
    requires
        0 <= off,
        off + 8 <= s.len(),
    ensures
        u32_at(ByteOrder::Little, s, off) == s[off] + 256 * s[off + 1] + 65536 * s[off + 2]
            + 16777216 * s[off + 3],
        u64_at(ByteOrder::Little, s, off) == u32_at(ByteOrder::Little, s, off) + 4294967296
            * u32_at(ByteOrder::Little, s, off + 4),
        u32_at(ByteOrder::Big, s, off) == u32_at(
            ByteOrder::Little,
            s.subrange(off, off + 4).reverse(),
            0,
        ),
        u64_at(ByteOrder::Big, s, off) == u64_at(
            ByteOrder::Little,
            s.subrange(off, off + 8).reverse(),
            0,
        ),
{
    reveal(u32_at);
    reveal(u64_at);
}

} // verus!
