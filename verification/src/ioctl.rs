//! Request numbers of the generic inode ioctls.

use vstd::prelude::*;

use crate::btrfs::ioc_r;

verus! {

/// ASCII `f`, the type of `FS_IOC_GETFLAGS`.
pub const GETFLAGS_TYPE: u32 = 0x66;

/// ASCII `v`, the type of `FS_IOC_GETVERSION`.
pub const GETVERSION_TYPE: u32 = 0x76;

/// ASCII `X`, the type of `FS_IOC_FSGETXATTR`.
pub const FSGETXATTR_TYPE: u32 = 0x58;

/// Size of `struct fsxattr`.
pub const FSXATTR_BYTES: usize = 28;

/// `_IOR('X', 31, struct fsxattr)`.
pub const FS_IOC_FSGETXATTR: u64 = 0x801c_581f;

/// `_IOR('f', 1, long)`. The kernel writes four bytes only, but the number
/// encodes the width of `long`.
pub fn fs_ioc_getflags() -> (request: libc::c_ulong)
    ensures
        request == crate::btrfs::ioc(
            2,
            GETFLAGS_TYPE,
            1,
            vstd::layout::size_of::<libc::c_long>() as u32,
        ),
{
    ioc_r(GETFLAGS_TYPE, 1, core::mem::size_of::<libc::c_long>() as u32)
}

/// `_IOR('v', 1, long)`.
pub fn fs_ioc_getversion() -> (request: libc::c_ulong)
    ensures
        request == crate::btrfs::ioc(
            2,
            GETVERSION_TYPE,
            1,
            vstd::layout::size_of::<libc::c_long>() as u32,
        ),
{
    ioc_r(GETVERSION_TYPE, 1, core::mem::size_of::<libc::c_long>() as u32)
}

/// The request number of `FS_IOC_FSGETXATTR` is the encoding of its
/// definition.
pub proof fn law_fsgetxattr_request()
    ensures
        FS_IOC_FSGETXATTR == crate::btrfs::ioc(2, FSGETXATTR_TYPE, 31, FSXATTR_BYTES as u32),
{
    crate::btrfs::law_ioc_fields(2, FSGETXATTR_TYPE, 31, FSXATTR_BYTES as u32);
}

/// The request numbers are those of the kernel: read-only requests, number 1 of
/// the type `f` and number 1 of the type `v` with the width of `long`, and
/// number 31 of the type `X` with a structure of 28 bytes.
pub proof fn law_inode_requests(width: u32)
    requires
        width < 0x4000,
    ensures
        crate::btrfs::ioc(2, GETFLAGS_TYPE, 1, width) == 0x8000_0000 + width * 0x1_0000 + 0x66
            * 0x100 + 1,
        crate::btrfs::ioc(2, GETVERSION_TYPE, 1, width) == 0x8000_0000 + width * 0x1_0000 + 0x76
            * 0x100 + 1,
        FS_IOC_FSGETXATTR == 0x8000_0000 + 28 * 0x1_0000 + 0x58 * 0x100 + 31,
{
    crate::btrfs::law_ioc_fields(2, GETFLAGS_TYPE, 1, width);
    crate::btrfs::law_ioc_fields(2, GETVERSION_TYPE, 1, width);
}

} // verus!
