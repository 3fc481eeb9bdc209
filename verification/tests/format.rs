use btrfs_lsattr::flags::{letters, FS_IMMUTABLE_FL, FS_NOCOW_FL};
use btrfs_lsattr::format::{write_line, write_long, write_paths_only, write_short};

fn s(buf: &[u8]) -> String {
    String::from_utf8(buf.to_vec()).unwrap()
}

#[test]
fn short_no_flags() {
    let mut buf = Vec::new();
    write_short(&mut buf, 0, b"/x");
    assert_eq!(s(&buf), "---------------------- /x\n");
}

#[test]
fn short_immutable_and_nocow() {
    let mut buf = Vec::new();
    write_short(&mut buf, FS_IMMUTABLE_FL | FS_NOCOW_FL, b"/x");
    // s u S D i a d A c E j I t T e C x F N P V m
    // Positions 4 (i) and 15 (C).
    assert_eq!(s(&buf), "----i----------C------ /x\n");
}

#[test]
fn long_no_flags() {
    let mut buf = Vec::new();
    write_long(&mut buf, 0, b"/x");
    assert_eq!(s(&buf), format!("{:<28} ---\n", "/x"));
}

#[test]
fn long_immutable_and_nocow() {
    let mut buf = Vec::new();
    write_long(&mut buf, FS_IMMUTABLE_FL | FS_NOCOW_FL, b"/x");
    assert_eq!(s(&buf), format!("{:<28} Immutable, No_COW\n", "/x"));
}

#[test]
fn long_path_longer_than_pad() {
    let mut buf = Vec::new();
    let p = "/very/long/path/that/exceeds/twenty/eight/chars";
    write_long(&mut buf, FS_NOCOW_FL, p.as_bytes());
    assert_eq!(s(&buf), format!("{} No_COW\n", p));
}

#[test]
fn paths_only() {
    let mut buf = Vec::new();
    write_paths_only(&mut buf, b"/x");
    assert_eq!(s(&buf), "/x\n");
}

#[test]
fn all_letters_show() {
    let mut buf = Vec::new();
    write_short(&mut buf, u32::MAX, b"p");
    assert_eq!(s(&buf), "suSDiadAcEjItTeCxFNPVm p\n");
}

#[test]
fn attribute_field_reads_back() {
    for flags in [0u32, 1, 0x0080_0010, 0x5a5a_5a5a, u32::MAX] {
        let mut buf = Vec::new();
        write_short(&mut buf, flags, b"p");
        for (i, l) in letters().iter().enumerate() {
            let expected = if flags & l.bit != 0 { l.letter as u8 } else { b'-' };
            assert_eq!(buf[i], expected);
        }
    }
}

#[test]
fn every_long_name_shows() {
    let mut buf = Vec::new();
    write_long(&mut buf, u32::MAX, b"");
    let names: Vec<&str> = letters().iter().map(|l| l.long).collect();
    assert_eq!(s(&buf), format!("{:<28} {}\n", "", names.join(", ")));
}

#[test]
fn long_path_of_exactly_the_pad() {
    let mut buf = Vec::new();
    let p = "abcdefghijklmnopqrstuvwxyz01";
    assert_eq!(p.len(), 28);
    write_long(&mut buf, 0, p.as_bytes());
    assert_eq!(s(&buf), format!("{} ---\n", p));
}

#[test]
fn columns_come_before_the_row() {
    let mut buf = Vec::new();
    write_line(&mut buf, 0, b"/etc/fstab", true, false, Some(0), Some(12345));
    assert_eq!(s(&buf), format!("    0 12345      {:<28} ---\n", "/etc/fstab"));
    let mut buf = Vec::new();
    write_line(&mut buf, 0, b"f", false, false, Some(123456), Some(u64::MAX));
    assert_eq!(
        s(&buf),
        "123456 18446744073709551615 ---------------------- f\n"
    );
    let mut buf = Vec::new();
    write_line(&mut buf, 0, b"f", false, false, None, Some(4294967295));
    assert_eq!(s(&buf), "4294967295 ---------------------- f\n");
    let mut buf = Vec::new();
    write_line(&mut buf, 0, b"f", false, false, Some(10), None);
    assert_eq!(s(&buf), "   10 ---------------------- f\n");
}

#[test]
fn bare_rows_have_no_columns() {
    let mut buf = b"before".to_vec();
    write_line(&mut buf, u32::MAX, b"f", false, true, Some(1), Some(2));
    assert_eq!(s(&buf), "beforef\n");
}
