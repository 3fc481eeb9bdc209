//! Attribute bits, their letters, and the translation between the two flag
//! spaces the tool meets: the `BTRFS_INODE_*` bits stored in the inode B-tree
//! and the `FS_*_FL` bits that `FS_IOC_GETFLAGS` reports and `lsattr` prints.
//!
//! The btrfs space is a strict subset of the other one: it carries no bit for
//! encryption, casefold, verity and the like.

use vstd::prelude::*;

verus! {

// FS_*_FL bits, from <linux/fs.h>.
pub const FS_SECRM_FL: u32 = 0x0000_0001;

pub const FS_UNRM_FL: u32 = 0x0000_0002;

pub const FS_COMPR_FL: u32 = 0x0000_0004;

pub const FS_SYNC_FL: u32 = 0x0000_0008;

pub const FS_IMMUTABLE_FL: u32 = 0x0000_0010;

pub const FS_APPEND_FL: u32 = 0x0000_0020;

pub const FS_NODUMP_FL: u32 = 0x0000_0040;

pub const FS_NOATIME_FL: u32 = 0x0000_0080;

pub const FS_NOCOMP_FL: u32 = 0x0000_0400;

pub const FS_ENCRYPT_FL: u32 = 0x0000_0800;

pub const FS_INDEX_FL: u32 = 0x0000_1000;

pub const FS_JOURNAL_DATA_FL: u32 = 0x0000_4000;

pub const FS_NOTAIL_FL: u32 = 0x0000_8000;

pub const FS_DIRSYNC_FL: u32 = 0x0001_0000;

pub const FS_TOPDIR_FL: u32 = 0x0002_0000;

pub const FS_EXTENT_FL: u32 = 0x0008_0000;

pub const FS_VERITY_FL: u32 = 0x0010_0000;

pub const FS_NOCOW_FL: u32 = 0x0080_0000;

pub const FS_DAX_FL: u32 = 0x0200_0000;

pub const FS_INLINE_DATA_FL: u32 = 0x1000_0000;

pub const FS_PROJINHERIT_FL: u32 = 0x2000_0000;

pub const FS_CASEFOLD_FL: u32 = 0x4000_0000;

// BTRFS_INODE_* bits, from <linux/btrfs_tree.h>. NODATASUM, READONLY and
// PREALLOC have no FS_*_FL counterpart.
pub const BTRFS_INODE_NODATASUM: u64 = 1 << 0;

pub const BTRFS_INODE_NODATACOW: u64 = 1 << 1;

pub const BTRFS_INODE_READONLY: u64 = 1 << 2;

pub const BTRFS_INODE_NOCOMPRESS: u64 = 1 << 3;

pub const BTRFS_INODE_PREALLOC: u64 = 1 << 4;

pub const BTRFS_INODE_SYNC: u64 = 1 << 5;

pub const BTRFS_INODE_IMMUTABLE: u64 = 1 << 6;

pub const BTRFS_INODE_APPEND: u64 = 1 << 7;

pub const BTRFS_INODE_NODUMP: u64 = 1 << 8;

pub const BTRFS_INODE_NOATIME: u64 = 1 << 9;

pub const BTRFS_INODE_DIRSYNC: u64 = 1 << 10;

pub const BTRFS_INODE_COMPRESS: u64 = 1 << 11;

/// First non-system objectid of any btrfs subvolume: the inode number of the
/// subvolume's root directory.
pub const BTRFS_FIRST_FREE_OBJECTID: u64 = 256;

/// The FS_*_FL bits that a btrfs inode item represents, and that the
/// tree-search fast path can therefore filter on.
pub const BTRFS_SUPPORTED_FS_MASK: u32 = FS_SYNC_FL | FS_IMMUTABLE_FL | FS_APPEND_FL
    | FS_NODUMP_FL | FS_NOATIME_FL | FS_DIRSYNC_FL | FS_COMPR_FL | FS_NOCOMP_FL | FS_NOCOW_FL;

/// `fs_bit` when `b` has `inode_bit` set, else nothing.
pub open spec fn carried(b: u64, inode_bit: u64, fs_bit: u32) -> u32 {
    if b & inode_bit != 0 {
        fs_bit
    } else {
        0
    }
}

/// The FS_*_FL view of the btrfs inode flags `b`: one bit for each of the nine
/// attributes that both flag spaces know.
pub open spec fn fs_of_btrfs(b: u64) -> u32 {
    carried(b, BTRFS_INODE_SYNC, FS_SYNC_FL) | carried(b, BTRFS_INODE_IMMUTABLE, FS_IMMUTABLE_FL)
        | carried(b, BTRFS_INODE_APPEND, FS_APPEND_FL) | carried(
        b,
        BTRFS_INODE_NODUMP,
        FS_NODUMP_FL,
    ) | carried(b, BTRFS_INODE_NOATIME, FS_NOATIME_FL) | carried(
        b,
        BTRFS_INODE_DIRSYNC,
        FS_DIRSYNC_FL,
    ) | carried(b, BTRFS_INODE_NODATACOW, FS_NOCOW_FL) | carried(
        b,
        BTRFS_INODE_NOCOMPRESS,
        FS_NOCOMP_FL,
    ) | carried(b, BTRFS_INODE_COMPRESS, FS_COMPR_FL)
}

/// Translate the inode B-tree's BTRFS_INODE_* bits into FS_*_FL bits.
/// Bits without a counterpart are dropped, as the kernel does.
pub fn btrfs_to_fs(b: u64) -> (f: u32)
    ensures
        f == fs_of_btrfs(b),
{
    let mut f: u32 = 0;
    if b & BTRFS_INODE_SYNC != 0 {
        f |= FS_SYNC_FL;
    }
    if b & BTRFS_INODE_IMMUTABLE != 0 {
        f |= FS_IMMUTABLE_FL;
    }
    if b & BTRFS_INODE_APPEND != 0 {
        f |= FS_APPEND_FL;
    }
    if b & BTRFS_INODE_NODUMP != 0 {
        f |= FS_NODUMP_FL;
    }
    if b & BTRFS_INODE_NOATIME != 0 {
        f |= FS_NOATIME_FL;
    }
    if b & BTRFS_INODE_DIRSYNC != 0 {
        f |= FS_DIRSYNC_FL;
    }
    if b & BTRFS_INODE_NODATACOW != 0 {
        f |= FS_NOCOW_FL;
    }
    if b & BTRFS_INODE_NOCOMPRESS != 0 {
        f |= FS_NOCOMP_FL;
    }
    if b & BTRFS_INODE_COMPRESS != 0 {
        f |= FS_COMPR_FL;
    }
    assert(f == fs_of_btrfs(b)) by {
        assert(forall|x: u32| #[trigger] (x | 0u32) == x) by (bit_vector);
        assert(forall|x: u32| #[trigger] (0u32 | x) == x) by (bit_vector);
    }
    f
}

/// A btrfs inode flag and its FS_*_FL counterpart hold or fail together, the
/// three bits without a counterpart change nothing, and only bits of
/// `BTRFS_SUPPORTED_FS_MASK` ever come out.
pub proof fn law_btrfs_bits_carry_over(b: u64)
    by (bit_vector)
    ensures
        (fs_of_btrfs(b) & FS_SYNC_FL != 0) == (b & BTRFS_INODE_SYNC != 0),
        (fs_of_btrfs(b) & FS_IMMUTABLE_FL != 0) == (b & BTRFS_INODE_IMMUTABLE != 0),
        (fs_of_btrfs(b) & FS_APPEND_FL != 0) == (b & BTRFS_INODE_APPEND != 0),
        (fs_of_btrfs(b) & FS_NODUMP_FL != 0) == (b & BTRFS_INODE_NODUMP != 0),
        (fs_of_btrfs(b) & FS_NOATIME_FL != 0) == (b & BTRFS_INODE_NOATIME != 0),
        (fs_of_btrfs(b) & FS_DIRSYNC_FL != 0) == (b & BTRFS_INODE_DIRSYNC != 0),
        (fs_of_btrfs(b) & FS_NOCOW_FL != 0) == (b & BTRFS_INODE_NODATACOW != 0),
        (fs_of_btrfs(b) & FS_NOCOMP_FL != 0) == (b & BTRFS_INODE_NOCOMPRESS != 0),
        (fs_of_btrfs(b) & FS_COMPR_FL != 0) == (b & BTRFS_INODE_COMPRESS != 0),
        fs_of_btrfs(b) & !BTRFS_SUPPORTED_FS_MASK == 0,
        fs_of_btrfs(
            b | BTRFS_INODE_NODATASUM | BTRFS_INODE_READONLY | BTRFS_INODE_PREALLOC,
        ) == fs_of_btrfs(b),
{
}

/// Translation distributes over the union of flag sets.
pub proof fn law_btrfs_translation_is_bitwise(a: u64, b: u64)
    by (bit_vector)
    ensures
        fs_of_btrfs(a | b) == fs_of_btrfs(a) | fs_of_btrfs(b),
{
}

/// One printable attribute: its bit, its letter in the short listing and its
/// name in the long one.
#[derive(Clone, Copy)]
pub struct LetterSpec {
    pub bit: u32,
    pub letter: char,
    pub long: &'static str,
}

/// Number of columns in the attribute field.
pub const LETTER_COUNT: usize = 22;

/// The attributes in the column order of `lsattr`.
pub open spec fn letter_table() -> Seq<LetterSpec> {
    seq![
        LetterSpec { bit: FS_SECRM_FL, letter: 's', long: "Secure_Deletion" },
        LetterSpec { bit: FS_UNRM_FL, letter: 'u', long: "Undelete" },
        LetterSpec { bit: FS_SYNC_FL, letter: 'S', long: "Synchronous_Updates" },
        LetterSpec { bit: FS_DIRSYNC_FL, letter: 'D', long: "Synchronous_Directory_Updates" },
        LetterSpec { bit: FS_IMMUTABLE_FL, letter: 'i', long: "Immutable" },
        LetterSpec { bit: FS_APPEND_FL, letter: 'a', long: "Append_Only" },
        LetterSpec { bit: FS_NODUMP_FL, letter: 'd', long: "No_Dump" },
        LetterSpec { bit: FS_NOATIME_FL, letter: 'A', long: "No_Atime" },
        LetterSpec { bit: FS_COMPR_FL, letter: 'c', long: "Compression_Requested" },
        LetterSpec { bit: FS_ENCRYPT_FL, letter: 'E', long: "Encrypted" },
        LetterSpec { bit: FS_JOURNAL_DATA_FL, letter: 'j', long: "Journaled_Data" },
        LetterSpec { bit: FS_INDEX_FL, letter: 'I', long: "Indexed_directory" },
        LetterSpec { bit: FS_NOTAIL_FL, letter: 't', long: "No_Tailmerging" },
        LetterSpec { bit: FS_TOPDIR_FL, letter: 'T', long: "Top_of_Directory_Hierarchies" },
        LetterSpec { bit: FS_EXTENT_FL, letter: 'e', long: "Extents" },
        LetterSpec { bit: FS_NOCOW_FL, letter: 'C', long: "No_COW" },
        LetterSpec { bit: FS_DAX_FL, letter: 'x', long: "DAX" },
        LetterSpec { bit: FS_CASEFOLD_FL, letter: 'F', long: "Casefold" },
        LetterSpec { bit: FS_INLINE_DATA_FL, letter: 'N', long: "Inline_Data" },
        LetterSpec { bit: FS_PROJINHERIT_FL, letter: 'P', long: "Project_Hierarchy" },
        LetterSpec { bit: FS_VERITY_FL, letter: 'V', long: "Verity" },
        LetterSpec { bit: FS_NOCOMP_FL, letter: 'm', long: "Dont_Compress" },
    ]
}

/// The attributes in the column order of `lsattr`.
pub fn letters() -> (table: [LetterSpec; 22])
    ensures
        table@ == letter_table(),
{
    let table: [LetterSpec; 22] = [
        LetterSpec { bit: FS_SECRM_FL, letter: 's', long: "Secure_Deletion" },
        LetterSpec { bit: FS_UNRM_FL, letter: 'u', long: "Undelete" },
        LetterSpec { bit: FS_SYNC_FL, letter: 'S', long: "Synchronous_Updates" },
        LetterSpec { bit: FS_DIRSYNC_FL, letter: 'D', long: "Synchronous_Directory_Updates" },
        LetterSpec { bit: FS_IMMUTABLE_FL, letter: 'i', long: "Immutable" },
        LetterSpec { bit: FS_APPEND_FL, letter: 'a', long: "Append_Only" },
        LetterSpec { bit: FS_NODUMP_FL, letter: 'd', long: "No_Dump" },
        LetterSpec { bit: FS_NOATIME_FL, letter: 'A', long: "No_Atime" },
        LetterSpec { bit: FS_COMPR_FL, letter: 'c', long: "Compression_Requested" },
        LetterSpec { bit: FS_ENCRYPT_FL, letter: 'E', long: "Encrypted" },
        LetterSpec { bit: FS_JOURNAL_DATA_FL, letter: 'j', long: "Journaled_Data" },
        LetterSpec { bit: FS_INDEX_FL, letter: 'I', long: "Indexed_directory" },
        LetterSpec { bit: FS_NOTAIL_FL, letter: 't', long: "No_Tailmerging" },
        LetterSpec { bit: FS_TOPDIR_FL, letter: 'T', long: "Top_of_Directory_Hierarchies" },
        LetterSpec { bit: FS_EXTENT_FL, letter: 'e', long: "Extents" },
        LetterSpec { bit: FS_NOCOW_FL, letter: 'C', long: "No_COW" },
        LetterSpec { bit: FS_DAX_FL, letter: 'x', long: "DAX" },
        LetterSpec { bit: FS_CASEFOLD_FL, letter: 'F', long: "Casefold" },
        LetterSpec { bit: FS_INLINE_DATA_FL, letter: 'N', long: "Inline_Data" },
        LetterSpec { bit: FS_PROJINHERIT_FL, letter: 'P', long: "Project_Hierarchy" },
        LetterSpec { bit: FS_VERITY_FL, letter: 'V', long: "Verity" },
        LetterSpec { bit: FS_NOCOMP_FL, letter: 'm', long: "Dont_Compress" },
    ];
    assert(table@ =~= letter_table());
    table
}

/// `c` is the letter of some attribute.
pub open spec fn is_letter(c: char) -> bool {
    exists|i: int| 0 <= i < letter_table().len() && (#[trigger] letter_table()[i]).letter == c
}

/// The attribute bit that the letter `c` stands for.
pub open spec fn bit_of(c: char) -> u32
    recommends
        is_letter(c),
{
    letter_table()[choose|i: int|
        0 <= i < letter_table().len() && (#[trigger] letter_table()[i]).letter == c].bit
}

/// The union of the bits of the letters in `s`.
pub open spec fn mask_of(s: Seq<char>) -> u32
    decreases s.len(),
{
    if s.len() == 0 {
        0
    } else {
        mask_of(s.drop_last()) | bit_of(s.last())
    }
}

/// `x` is one of the attribute bits.
pub open spec fn is_attribute_bit(x: u32) -> bool {
    ||| x == FS_SECRM_FL
    ||| x == FS_UNRM_FL
    ||| x == FS_SYNC_FL
    ||| x == FS_DIRSYNC_FL
    ||| x == FS_IMMUTABLE_FL
    ||| x == FS_APPEND_FL
    ||| x == FS_NODUMP_FL
    ||| x == FS_NOATIME_FL
    ||| x == FS_COMPR_FL
    ||| x == FS_ENCRYPT_FL
    ||| x == FS_JOURNAL_DATA_FL
    ||| x == FS_INDEX_FL
    ||| x == FS_NOTAIL_FL
    ||| x == FS_TOPDIR_FL
    ||| x == FS_EXTENT_FL
    ||| x == FS_NOCOW_FL
    ||| x == FS_DAX_FL
    ||| x == FS_CASEFOLD_FL
    ||| x == FS_INLINE_DATA_FL
    ||| x == FS_PROJINHERIT_FL
    ||| x == FS_VERITY_FL
    ||| x == FS_NOCOMP_FL
}

/// No two columns share a letter or a bit, every bit is a single one, and a
/// letter stands for the bit of its own column.
pub proof fn law_letters_are_distinct(i: int, j: int)
    requires
        0 <= i < letter_table().len(),
        0 <= j < letter_table().len(),
        i != j,
    ensures
        letter_table()[i].letter != letter_table()[j].letter,
        letter_table()[i].bit & letter_table()[j].bit == 0,
        letter_table()[i].bit != 0,
        is_letter(letter_table()[i].letter),
        bit_of(letter_table()[i].letter) == letter_table()[i].bit,
{
    let x = letter_table()[i].bit;
    let y = letter_table()[j].bit;
    assert(x & y == 0) by (bit_vector)
        requires
            is_attribute_bit(x),
            is_attribute_bit(y),
            x != y,
    ;
}

/// The bit of the letter `c`, if it is one.
pub fn letter_bit(c: char) -> (bit: Option<u32>)
    ensures
        bit is Some <==> is_letter(c),
        bit matches Some(b) ==> b == bit_of(c),
{
    let table = letters();
    let mut i: usize = 0;
    while i < LETTER_COUNT
        invariant
            i <= LETTER_COUNT,
            table@ == letter_table(),
            forall|k: int| 0 <= k < i ==> (#[trigger] letter_table()[k]).letter != c,
        decreases LETTER_COUNT - i,
    {
        if table[i].letter == c {
            proof {
                law_letters_are_distinct(i as int, if i == 0 { 1 } else { 0 });
            }
            return Some(table[i].bit);
        }
        i += 1;
    }
    None
}

/// Parse a `--has` letter sequence into an attribute mask. The first character
/// that is not a letter is the error.
pub fn letters_to_mask(s: &str) -> (mask: Result<u32, char>)
    ensures
        match mask {
            Ok(m) => {
                &&& forall|i: int| 0 <= i < s@.len() ==> is_letter(#[trigger] s@[i])
                &&& m == mask_of(s@)
            },
            Err(c) => exists|k: int|
                {
                    &&& 0 <= k < s@.len()
                    &&& #[trigger] s@[k] == c
                    &&& !is_letter(c)
                    &&& forall|i: int| 0 <= i < k ==> is_letter(#[trigger] s@[i])
                },
        },
{
    let mut mask: u32 = 0;
    for c in it: s.chars()
        invariant
            it.seq() == s@,
            mask == mask_of(s@.take(it.index())),
            forall|i: int| 0 <= i < it.index() ==> is_letter(#[trigger] s@[i]),
    {
        let ghost k = it.index();
        assert(c == s@[k]);
        match letter_bit(c) {
            Some(bit) => {
                assert(s@.take(k + 1).drop_last() =~= s@.take(k));
                mask |= bit;
            },
            None => {
                return Err(c);
            },
        }
    }
    assert(s@.take(s@.len() as int) =~= s@);
    Ok(mask)
}

/// `flags` has every bit of `mask`: the filter that `--has` applies.
pub open spec fn has_all(flags: u32, mask: u32) -> bool {
    flags & mask == mask
}

/// A `--has` mask selects exactly the inodes that have all the listed letters
/// set.
pub proof fn law_mask_selects_all_letters(s: Seq<char>, flags: u32)
    requires
        forall|i: int| 0 <= i < s.len() ==> is_letter(#[trigger] s[i]),
    ensures
        has_all(flags, mask_of(s)) <==> forall|i: int|
            0 <= i < s.len() ==> flags & bit_of(#[trigger] s[i]) != 0,
    decreases s.len(),
{
    if s.len() == 0 {
        assert(flags & 0u32 == 0u32) by (bit_vector);
    } else {
        let m = mask_of(s.drop_last());
        let b = bit_of(s.last());
        law_mask_selects_all_letters(s.drop_last(), flags);
        assert(is_letter(s[s.len() - 1]));
        assert(is_attribute_bit(b));
        assert(flags & (m | b) == m | b <==> (flags & m == m && flags & b != 0)) by (bit_vector)
            requires
                is_attribute_bit(b),
        ;
        assert(forall|i: int| 0 <= i < s.len() - 1 ==> s.drop_last()[i] == s[i]);
        if forall|i: int| 0 <= i < s.len() ==> flags & bit_of(#[trigger] s[i]) != 0 {
            assert forall|i: int| 0 <= i < s.drop_last().len() implies flags & bit_of(
                #[trigger] s.drop_last()[i],
            ) != 0 by {
                assert(flags & bit_of(s[i]) != 0);
            }
            assert(flags & bit_of(s[s.len() - 1]) != 0);
        }
        if has_all(flags, mask_of(s)) {
            assert forall|i: int| 0 <= i < s.len() implies flags & bit_of(#[trigger] s[i]) != 0 by {
                if i < s.len() - 1 {
                    assert(flags & bit_of(s.drop_last()[i]) != 0);
                }
            }
        }
    }
}

/// What a mask of supported bits selects in the btrfs inode flags is what it
/// selects in any attribute word that agrees with them on those bits.
pub proof fn law_fast_filter_agrees(mask: u32, btrfs_flags: u64, flags: u32)
    requires
        mask & !BTRFS_SUPPORTED_FS_MASK == 0,
        flags & BTRFS_SUPPORTED_FS_MASK == fs_of_btrfs(btrfs_flags),
    ensures
        has_all(fs_of_btrfs(btrfs_flags), mask) == has_all(flags, mask),
{
    let f = fs_of_btrfs(btrfs_flags);
    assert((f & mask == mask) == (flags & mask == mask)) by (bit_vector)
        requires
            mask & !BTRFS_SUPPORTED_FS_MASK == 0,
            flags & BTRFS_SUPPORTED_FS_MASK == f,
    ;
}

/// Each letter stands for the attribute that `chattr` sets with it, by the
/// kernel's number of that attribute.
pub proof fn law_letters_stand_for_kernel_bits()
    ensures
        bit_of('s') == 0x1,
        bit_of('u') == 0x2,
        bit_of('S') == 0x8,
        bit_of('D') == 0x10000,
        bit_of('i') == 0x10,
        bit_of('a') == 0x20,
        bit_of('d') == 0x40,
        bit_of('A') == 0x80,
        bit_of('c') == 0x4,
        bit_of('E') == 0x800,
        bit_of('j') == 0x4000,
        bit_of('I') == 0x1000,
        bit_of('t') == 0x8000,
        bit_of('T') == 0x20000,
        bit_of('e') == 0x80000,
        bit_of('C') == 0x800000,
        bit_of('x') == 0x2000000,
        bit_of('F') == 0x40000000,
        bit_of('N') == 0x10000000,
        bit_of('P') == 0x20000000,
        bit_of('V') == 0x100000,
        bit_of('m') == 0x400,
{
    law_letters_are_distinct(0, 1);
    law_letters_are_distinct(1, 0);
    law_letters_are_distinct(2, 0);
    law_letters_are_distinct(3, 0);
    law_letters_are_distinct(4, 0);
    law_letters_are_distinct(5, 0);
    law_letters_are_distinct(6, 0);
    law_letters_are_distinct(7, 0);
    law_letters_are_distinct(8, 0);
    law_letters_are_distinct(9, 0);
    law_letters_are_distinct(10, 0);
    law_letters_are_distinct(11, 0);
    law_letters_are_distinct(12, 0);
    law_letters_are_distinct(13, 0);
    law_letters_are_distinct(14, 0);
    law_letters_are_distinct(15, 0);
    law_letters_are_distinct(16, 0);
    law_letters_are_distinct(17, 0);
    law_letters_are_distinct(18, 0);
    law_letters_are_distinct(19, 0);
    law_letters_are_distinct(20, 0);
    law_letters_are_distinct(21, 0);
}

/// Every attribute has its own name in long rows.
pub proof fn law_names_of_kernel_bits(i: int)
    requires
        0 <= i < letter_table().len(),
    ensures
        letter_table().len() == 22,
        letter_table()[i].bit == 0x1 ==> letter_table()[i].long@ == "Secure_Deletion"@,
        letter_table()[i].bit == 0x2 ==> letter_table()[i].long@ == "Undelete"@,
        letter_table()[i].bit == 0x8 ==> letter_table()[i].long@ == "Synchronous_Updates"@,
        letter_table()[i].bit == 0x10000 ==> letter_table()[i].long@
            == "Synchronous_Directory_Updates"@,
        letter_table()[i].bit == 0x10 ==> letter_table()[i].long@ == "Immutable"@,
        letter_table()[i].bit == 0x20 ==> letter_table()[i].long@ == "Append_Only"@,
        letter_table()[i].bit == 0x40 ==> letter_table()[i].long@ == "No_Dump"@,
        letter_table()[i].bit == 0x80 ==> letter_table()[i].long@ == "No_Atime"@,
        letter_table()[i].bit == 0x4 ==> letter_table()[i].long@ == "Compression_Requested"@,
        letter_table()[i].bit == 0x800 ==> letter_table()[i].long@ == "Encrypted"@,
        letter_table()[i].bit == 0x4000 ==> letter_table()[i].long@ == "Journaled_Data"@,
        letter_table()[i].bit == 0x1000 ==> letter_table()[i].long@ == "Indexed_directory"@,
        letter_table()[i].bit == 0x8000 ==> letter_table()[i].long@ == "No_Tailmerging"@,
        letter_table()[i].bit == 0x20000 ==> letter_table()[i].long@
            == "Top_of_Directory_Hierarchies"@,
        letter_table()[i].bit == 0x80000 ==> letter_table()[i].long@ == "Extents"@,
        letter_table()[i].bit == 0x800000 ==> letter_table()[i].long@ == "No_COW"@,
        letter_table()[i].bit == 0x2000000 ==> letter_table()[i].long@ == "DAX"@,
        letter_table()[i].bit == 0x40000000 ==> letter_table()[i].long@ == "Casefold"@,
        letter_table()[i].bit == 0x10000000 ==> letter_table()[i].long@ == "Inline_Data"@,
        letter_table()[i].bit == 0x20000000 ==> letter_table()[i].long@ == "Project_Hierarchy"@,
        letter_table()[i].bit == 0x100000 ==> letter_table()[i].long@ == "Verity"@,
        letter_table()[i].bit == 0x400 ==> letter_table()[i].long@ == "Dont_Compress"@,
{
}

/// `c` is one of the letters that `lsattr` prints.
pub open spec fn is_printed_letter(c: char) -> bool {
    ||| c == 's'
    ||| c == 'u'
    ||| c == 'S'
    ||| c == 'D'
    ||| c == 'i'
    ||| c == 'a'
    ||| c == 'd'
    ||| c == 'A'
    ||| c == 'c'
    ||| c == 'E'
    ||| c == 'j'
    ||| c == 'I'
    ||| c == 't'
    ||| c == 'T'
    ||| c == 'e'
    ||| c == 'C'
    ||| c == 'x'
    ||| c == 'F'
    ||| c == 'N'
    ||| c == 'P'
    ||| c == 'V'
    ||| c == 'm'
}

/// The letters of a filter are those that `lsattr` prints, and no others.
pub proof fn law_known_letters(c: char)
    ensures
        is_letter(c) <==> is_printed_letter(c),
{
    assert(letter_table().len() == 22);
    if is_printed_letter(c) {
        assert(letter_table()[0].letter == 's');
        assert(letter_table()[1].letter == 'u');
        assert(letter_table()[2].letter == 'S');
        assert(letter_table()[3].letter == 'D');
        assert(letter_table()[4].letter == 'i');
        assert(letter_table()[5].letter == 'a');
        assert(letter_table()[6].letter == 'd');
        assert(letter_table()[7].letter == 'A');
        assert(letter_table()[8].letter == 'c');
        assert(letter_table()[9].letter == 'E');
        assert(letter_table()[10].letter == 'j');
        assert(letter_table()[11].letter == 'I');
        assert(letter_table()[12].letter == 't');
        assert(letter_table()[13].letter == 'T');
        assert(letter_table()[14].letter == 'e');
        assert(letter_table()[15].letter == 'C');
        assert(letter_table()[16].letter == 'x');
        assert(letter_table()[17].letter == 'F');
        assert(letter_table()[18].letter == 'N');
        assert(letter_table()[19].letter == 'P');
        assert(letter_table()[20].letter == 'V');
        assert(letter_table()[21].letter == 'm');
    }
}

/// The attributes that a tree search can filter on, by their kernel numbers.
pub proof fn law_searchable_bits()
    ensures
        BTRFS_SUPPORTED_FS_MASK == 0x8104fc,
{
    assert(BTRFS_SUPPORTED_FS_MASK == 0x8104fc) by (bit_vector);
}

/// `flags` has set each bit that `mask` has set.
pub open spec fn sets_every_bit(flags: u32, mask: u32) -> bool {
    forall|i: u32| i < 32 && mask & #[trigger] (1u32 << i) != 0 ==> flags & (1u32 << i) != 0
}

/// The filter looks at every bit of the mask and at no other: flags pass iff
/// they have set each bit that the mask has set.
pub proof fn law_filter_is_bitwise(flags: u32, mask: u32)
    ensures
        has_all(flags, mask) <==> sets_every_bit(flags, mask),
{
    assert(has_all(flags, mask) ==> forall|i: u32|
        i < 32 && mask & #[trigger] (1u32 << i) != 0 ==> flags & (1u32 << i) != 0) by (bit_vector);
    if !has_all(flags, mask) {
        let missing = mask & !flags;
        assert(missing != 0) by (bit_vector)
            requires
                flags & mask != mask,
                missing == mask & !flags,
        ;
        lemma_some_bit(missing);
        let i = choose|i: u32| i < 32 && missing & #[trigger] (1u32 << i) != 0;
        assert(mask & (1u32 << i) != 0 && flags & (1u32 << i) == 0) by (bit_vector)
            requires
                i < 32,
                missing == mask & !flags,
                missing & (1u32 << i) != 0,
        ;
    }
}

/// A word that is not zero has a bit set.
proof fn lemma_some_bit(x: u32)
    requires
        x != 0,
    ensures
        exists|i: u32| i < 32 && x & #[trigger] (1u32 << i) != 0,
{
    if forall|i: u32| i < 32 ==> x & #[trigger] (1u32 << i) == 0 {
        assert(x & (1u32 << 0u32) == 0);
        assert(x & (1u32 << 1u32) == 0);
        assert(x & (1u32 << 2u32) == 0);
        assert(x & (1u32 << 3u32) == 0);
        assert(x & (1u32 << 4u32) == 0);
        assert(x & (1u32 << 5u32) == 0);
        assert(x & (1u32 << 6u32) == 0);
        assert(x & (1u32 << 7u32) == 0);
        assert(x & (1u32 << 8u32) == 0);
        assert(x & (1u32 << 9u32) == 0);
        assert(x & (1u32 << 10u32) == 0);
        assert(x & (1u32 << 11u32) == 0);
        assert(x & (1u32 << 12u32) == 0);
        assert(x & (1u32 << 13u32) == 0);
        assert(x & (1u32 << 14u32) == 0);
        assert(x & (1u32 << 15u32) == 0);
        assert(x & (1u32 << 16u32) == 0);
        assert(x & (1u32 << 17u32) == 0);
        assert(x & (1u32 << 18u32) == 0);
        assert(x & (1u32 << 19u32) == 0);
        assert(x & (1u32 << 20u32) == 0);
        assert(x & (1u32 << 21u32) == 0);
        assert(x & (1u32 << 22u32) == 0);
        assert(x & (1u32 << 23u32) == 0);
        assert(x & (1u32 << 24u32) == 0);
        assert(x & (1u32 << 25u32) == 0);
        assert(x & (1u32 << 26u32) == 0);
        assert(x & (1u32 << 27u32) == 0);
        assert(x & (1u32 << 28u32) == 0);
        assert(x & (1u32 << 29u32) == 0);
        assert(x & (1u32 << 30u32) == 0);
        assert(x & (1u32 << 31u32) == 0);
        assert(false) by (bit_vector)
            requires
                x != 0,
                x & (1u32 << 0u32) == 0,
                x & (1u32 << 1u32) == 0,
                x & (1u32 << 2u32) == 0,
                x & (1u32 << 3u32) == 0,
                x & (1u32 << 4u32) == 0,
                x & (1u32 << 5u32) == 0,
                x & (1u32 << 6u32) == 0,
                x & (1u32 << 7u32) == 0,
                x & (1u32 << 8u32) == 0,
                x & (1u32 << 9u32) == 0,
                x & (1u32 << 10u32) == 0,
                x & (1u32 << 11u32) == 0,
                x & (1u32 << 12u32) == 0,
                x & (1u32 << 13u32) == 0,
                x & (1u32 << 14u32) == 0,
                x & (1u32 << 15u32) == 0,
                x & (1u32 << 16u32) == 0,
                x & (1u32 << 17u32) == 0,
                x & (1u32 << 18u32) == 0,
                x & (1u32 << 19u32) == 0,
                x & (1u32 << 20u32) == 0,
                x & (1u32 << 21u32) == 0,
                x & (1u32 << 22u32) == 0,
                x & (1u32 << 23u32) == 0,
                x & (1u32 << 24u32) == 0,
                x & (1u32 << 25u32) == 0,
                x & (1u32 << 26u32) == 0,
                x & (1u32 << 27u32) == 0,
                x & (1u32 << 28u32) == 0,
                x & (1u32 << 29u32) == 0,
                x & (1u32 << 30u32) == 0,
                x & (1u32 << 31u32) == 0,
        ;
    }
}

/// An inode flag of btrfs and the attribute that the kernel shows for it go
/// together, by their numbers in the kernel; nothing else is shown.
pub proof fn law_btrfs_numbers_carry_over(b: u64)
    by (bit_vector)
    ensures
        (fs_of_btrfs(b) & 0x8 != 0) == (b & 0x20 != 0),
        (fs_of_btrfs(b) & 0x10 != 0) == (b & 0x40 != 0),
        (fs_of_btrfs(b) & 0x20 != 0) == (b & 0x80 != 0),
        (fs_of_btrfs(b) & 0x40 != 0) == (b & 0x100 != 0),
        (fs_of_btrfs(b) & 0x80 != 0) == (b & 0x200 != 0),
        (fs_of_btrfs(b) & 0x10000 != 0) == (b & 0x400 != 0),
        (fs_of_btrfs(b) & 0x4 != 0) == (b & 0x800 != 0),
        (fs_of_btrfs(b) & 0x400 != 0) == (b & 0x8 != 0),
        (fs_of_btrfs(b) & 0x800000 != 0) == (b & 0x2 != 0),
        fs_of_btrfs(b) & !0x8104fc == 0,
        fs_of_btrfs(b) == fs_of_btrfs(b & 0xfea),
{
}

} // verus!
