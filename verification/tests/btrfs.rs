use btrfs_lsattr::btrfs::{
    grow_fspath_buffer, ino_path_args, ino_paths, ioc_r, ioc_rw, parse_ino_path_buf,
    read_data_container, scan_flags, search_args, BatchEnd, InoPaths, InodeFlags,
    BTRFS_IOC_INO_PATHS, BTRFS_IOC_TREE_SEARCH_V2, FSPATH_BUF_BYTES, INODE_ITEM_FLAGS_OFF,
    MAX_FSPATH_BUF_BYTES, SEARCH_ARGS_BYTES, SEARCH_BUF_BYTES,
};
use btrfs_lsattr::bytes::{push_u32, push_u64, read_u32, read_u64, ByteOrder};
use btrfs_lsattr::errors::{invalid_data, DataError, Error};
use btrfs_lsattr::ioctl::{fs_ioc_getflags, fs_ioc_getversion, FS_IOC_FSGETXATTR};

// _IOWR results per <linux/btrfs.h>.
const TREE_SEARCH_V2_REF: libc::c_ulong = 0xC070_9411;
const INO_PATHS_REF: libc::c_ulong = 0xC038_9423;

fn native() -> ByteOrder {
    if 1u16.to_ne_bytes()[0] == 1 {
        ByteOrder::Little
    } else {
        ByteOrder::Big
    }
}

#[test]
fn ioc_rw_matches_kernel_macro() {
    assert_eq!(ioc_rw(0x94, 17, 112), TREE_SEARCH_V2_REF);
    assert_eq!(ioc_rw(0x94, 35, 56), INO_PATHS_REF);
}

#[test]
fn ioctl_constants_match_kernel_header() {
    assert_eq!(BTRFS_IOC_TREE_SEARCH_V2 as libc::c_ulong, TREE_SEARCH_V2_REF);
    assert_eq!(BTRFS_IOC_INO_PATHS as libc::c_ulong, INO_PATHS_REF);
}

#[test]
fn flags_offset_within_inode_item() {
    assert_eq!(INODE_ITEM_FLAGS_OFF, 5 * 8 + 4 * 4 + 8);
}

#[test]
fn ioc_numbers_match_kernel_macros() {
    // _IOR('f', 1, long), _IOR('v', 1, long), _IOR('X', 31, fsxattr)
    // on 64-bit (sizeof(long)=8, sizeof(fsxattr)=28).
    assert_eq!(fs_ioc_getflags(), 0x8008_6601);
    assert_eq!(fs_ioc_getversion(), 0x8008_7601);
    // _IOR('X', 31, fsxattr) — nr=31 dec = 0x1f.
    assert_eq!(FS_IOC_FSGETXATTR, 0x801c_581f);
}

#[test]
fn ioc_r_of_a_28_byte_structure() {
    assert_eq!(ioc_r(b'X' as u32, 31, 28), 0x801c_581f);
}

fn ino_path_buf(offsets: &[u64], strings: &[&[u8]]) -> Vec<u8> {
    let mut buf = Vec::new();
    buf.extend_from_slice(&0u32.to_ne_bytes());
    buf.extend_from_slice(&0u32.to_ne_bytes());
    buf.extend_from_slice(&(offsets.len() as u32).to_ne_bytes());
    buf.extend_from_slice(&0u32.to_ne_bytes());
    for off in offsets {
        buf.extend_from_slice(&off.to_ne_bytes());
    }
    for s in strings {
        buf.extend_from_slice(s);
    }
    buf
}

fn parse(buf: &[u8]) -> Result<Vec<&[u8]>, DataError> {
    let container = read_data_container(buf, native())?;
    parse_ino_path_buf(&container, buf, native())
}

fn is_invalid_data(e: DataError) -> bool {
    matches!(invalid_data(e), Error::Data(_))
}

#[test]
fn parses_ino_paths_buffer() {
    let buf = ino_path_buf(&[16, 22], &[b"first\0", b"second\0"]);
    let paths = parse(&buf).unwrap();
    assert_eq!(paths, vec![b"first".as_slice(), b"second".as_slice()]);
}

#[test]
fn rejects_ino_paths_offset_outside_buffer() {
    let buf = ino_path_buf(&[99], &[b"first\0"]);
    let err = parse(&buf).unwrap_err();
    assert!(is_invalid_data(err));
    assert_eq!(err, DataError::OffsetOutsideBuffer);
}

#[test]
fn rejects_ino_paths_offset_inside_offset_table() {
    let buf = ino_path_buf(&[0], &[b"first\0"]);
    let err = parse(&buf).unwrap_err();
    assert!(is_invalid_data(err));
    assert_eq!(err, DataError::OffsetInTable);
}

#[test]
fn rejects_ino_paths_without_nul_terminator() {
    let buf = ino_path_buf(&[8], &[b"first"]);
    let err = parse(&buf).unwrap_err();
    assert!(is_invalid_data(err));
    assert_eq!(err, DataError::Unterminated);
}

#[test]
fn grows_ino_paths_buffer_for_missing_bytes() {
    assert!(grow_fspath_buffer(4096, 8192).unwrap() > 4096);
}

#[test]
fn rejects_a_table_larger_than_the_buffer() {
    let mut buf = ino_path_buf(&[16], &[]);
    buf[8..12].copy_from_slice(&5u32.to_ne_bytes());
    assert_eq!(parse(&buf), Err(DataError::TableOutsideBuffer));
}

#[test]
fn rejects_a_reply_without_a_header() {
    assert_eq!(parse(&[0u8; 15]), Err(DataError::ShortContainer));
    assert!(matches!(
        ino_paths(&[0u8; 15], FSPATH_BUF_BYTES, native()),
        Err(DataError::ShortContainer)
    ));
    assert_eq!(parse(&[0u8; 16]), Ok(Vec::new()));
}

#[test]
fn buffer_growth_has_exact_sizes() {
    assert_eq!(grow_fspath_buffer(16384, 0), Ok(32768));
    assert_eq!(grow_fspath_buffer(16384, 20000), Ok(16384 + 20000 + 4096));
    assert_eq!(grow_fspath_buffer(16384, usize::MAX), Ok(MAX_FSPATH_BUF_BYTES));
    assert_eq!(
        grow_fspath_buffer(MAX_FSPATH_BUF_BYTES - 1, 1),
        Ok(MAX_FSPATH_BUF_BYTES)
    );
    assert_eq!(
        grow_fspath_buffer(MAX_FSPATH_BUF_BYTES, 0),
        Err(DataError::BufferLimit)
    );
}

#[test]
fn incomplete_lookups_are_retried() {
    let mut buf = ino_path_buf(&[8], &[b"p\0"]);
    buf[4..8].copy_from_slice(&100u32.to_ne_bytes());
    match ino_paths(&buf, FSPATH_BUF_BYTES, native()) {
        Ok(InoPaths::Retry(size)) => assert_eq!(size, 2 * FSPATH_BUF_BYTES),
        _ => panic!("no retry"),
    }
    assert!(matches!(
        ino_paths(&buf, MAX_FSPATH_BUF_BYTES, native()),
        Err(DataError::BufferLimit)
    ));
    let mut buf = ino_path_buf(&[8], &[b"p\0"]);
    buf[12..16].copy_from_slice(&1u32.to_ne_bytes());
    assert!(matches!(
        ino_paths(&buf, FSPATH_BUF_BYTES, native()),
        Ok(InoPaths::Retry(_))
    ));
    let buf = ino_path_buf(&[8], &[b"p\0"]);
    match ino_paths(&buf, FSPATH_BUF_BYTES, native()) {
        Ok(InoPaths::Paths(paths)) => assert_eq!(paths, vec![b"p".as_slice()]),
        _ => panic!("no paths"),
    }
}

#[test]
fn integers_read_back_in_both_orders() {
    for order in [ByteOrder::Little, ByteOrder::Big] {
        let mut w = vec![9u8];
        push_u32(&mut w, 0x0102_0304, order);
        push_u64(&mut w, 0x0506_0708_090a_0b0c, order);
        assert_eq!(read_u32(&w, 1, order), 0x0102_0304);
        assert_eq!(read_u64(&w, 5, order), 0x0506_0708_090a_0b0c);
    }
    let mut w = Vec::new();
    push_u32(&mut w, 0x0102_0304, ByteOrder::Little);
    push_u32(&mut w, 0x0102_0304, ByteOrder::Big);
    assert_eq!(w, vec![4, 3, 2, 1, 1, 2, 3, 4]);
}

#[test]
fn search_arguments_have_the_kernel_layout() {
    let buf = search_args(300, native());
    assert_eq!(buf.len(), SEARCH_ARGS_BYTES + SEARCH_BUF_BYTES);
    assert_eq!(read_u64(&buf, 0, native()), 0);
    assert_eq!(read_u64(&buf, 8, native()), 300);
    assert_eq!(read_u64(&buf, 16, native()), u64::MAX);
    assert_eq!(read_u64(&buf, 24, native()), 0);
    assert_eq!(read_u64(&buf, 32, native()), u64::MAX);
    assert_eq!(read_u64(&buf, 40, native()), 0);
    assert_eq!(read_u64(&buf, 48, native()), u64::MAX);
    assert_eq!(read_u32(&buf, 56, native()), 1);
    assert_eq!(read_u32(&buf, 60, native()), 1);
    assert_eq!(read_u32(&buf, 64, native()), 4096);
    assert_eq!(read_u64(&buf, 104, native()), 65536);
    assert!(buf[68..104].iter().all(|b| *b == 0));
}

#[test]
fn lookup_arguments_have_the_kernel_layout() {
    let buf = ino_path_args(257, 16384, 0xdead_beef, native());
    assert_eq!(buf.len(), 56);
    assert_eq!(read_u64(&buf, 0, native()), 257);
    assert_eq!(read_u64(&buf, 8, native()), 16384);
    assert!(buf[16..48].iter().all(|b| *b == 0));
    assert_eq!(read_u64(&buf, 48, native()), 0xdead_beef);
}

/// A search reply with these records: objectid, type, flags, length.
fn search_reply(records: &[(u64, u32, u64, u32)]) -> Vec<u8> {
    let mut buf = search_args(0, native());
    buf[64..68].copy_from_slice(&(records.len() as u32).to_ne_bytes());
    let mut p = SEARCH_ARGS_BYTES;
    for (objectid, typ, flags, len) in records {
        buf[p + 8..p + 16].copy_from_slice(&objectid.to_ne_bytes());
        buf[p + 24..p + 28].copy_from_slice(&typ.to_ne_bytes());
        buf[p + 28..p + 32].copy_from_slice(&len.to_ne_bytes());
        if *len >= 72 {
            buf[p + 32 + 64..p + 32 + 72].copy_from_slice(&flags.to_le_bytes());
        }
        p += 32 + *len as usize;
    }
    buf
}

fn inode(objectid: u64, flags: u64) -> InodeFlags {
    InodeFlags { objectid, flags }
}

#[test]
fn search_reply_reads_back() {
    let buf = search_reply(&[(256, 1, 2, 160), (257, 1, 64, 160), (300, 1, 0, 72)]);
    let batch = scan_flags(&buf, 0, native());
    assert_eq!(batch.items, vec![inode(256, 2), inode(257, 64), inode(300, 0)]);
    assert_eq!(batch.end, BatchEnd::Next(301));
}

#[test]
fn other_items_and_short_items_are_stepped_over() {
    let buf = search_reply(&[(256, 12, 2, 160), (257, 1, 0, 71), (258, 1, 4, 160)]);
    let batch = scan_flags(&buf, 0, native());
    assert_eq!(batch.items, vec![inode(258, 4)]);
    assert_eq!(batch.end, BatchEnd::Next(259));
}

#[test]
fn empty_reply_ends_the_search() {
    let batch = scan_flags(&search_reply(&[]), 7, native());
    assert!(batch.items.is_empty());
    assert_eq!(batch.end, BatchEnd::Last);
}

#[test]
fn largest_objectid_ends_the_search() {
    let batch = scan_flags(&search_reply(&[(u64::MAX, 1, 2, 160)]), 0, native());
    assert_eq!(batch.items, vec![inode(u64::MAX, 2)]);
    assert_eq!(batch.end, BatchEnd::Last);
}

#[test]
fn item_beyond_the_buffer_is_malformed() {
    let mut buf = search_reply(&[(256, 1, 2, 160), (257, 1, 2, 160)]);
    let p = SEARCH_ARGS_BYTES + 32 + 160;
    buf[p + 28..p + 32].copy_from_slice(&u32::MAX.to_ne_bytes());
    let batch = scan_flags(&buf, 0, native());
    assert_eq!(batch.items, vec![inode(256, 2)]);
    assert_eq!(batch.end, BatchEnd::Malformed(DataError::ItemOutsideBuffer));
}

#[test]
fn header_beyond_the_buffer_is_malformed() {
    let mut buf = search_reply(&[(256, 1, 2, 160)]);
    buf[64..68].copy_from_slice(&2u32.to_ne_bytes());
    buf.truncate(SEARCH_ARGS_BYTES + 32 + 160 + 31);
    let batch = scan_flags(&buf, 0, native());
    assert_eq!(batch.items, vec![inode(256, 2)]);
    assert_eq!(batch.end, BatchEnd::Malformed(DataError::ShortItemHeader));
}

#[test]
fn retries_reach_the_limit_and_end() {
    let mut size = FSPATH_BUF_BYTES;
    let mut retries = 0;
    while size < MAX_FSPATH_BUF_BYTES {
        let next = grow_fspath_buffer(size, 0).unwrap();
        assert!(next > size);
        size = next;
        retries += 1;
    }
    assert_eq!(retries, 10);
    assert_eq!(grow_fspath_buffer(size, 0), Err(DataError::BufferLimit));
}
