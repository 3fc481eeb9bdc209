use btrfs_lsattr::cli::{can_use_fast_has_path, filtered_walk_opts, has_mask, plain_walk_opts};
use btrfs_lsattr::cli::{Cli, UsageError, USAGE_STATUS};
use btrfs_lsattr::flags::{
    btrfs_to_fs, letter_bit, letters, letters_to_mask, BTRFS_INODE_APPEND, BTRFS_INODE_COMPRESS,
    BTRFS_INODE_DIRSYNC, BTRFS_INODE_IMMUTABLE, BTRFS_INODE_NOATIME, BTRFS_INODE_NOCOMPRESS,
    BTRFS_INODE_NODATACOW, BTRFS_INODE_NODATASUM, BTRFS_INODE_NODUMP, BTRFS_INODE_PREALLOC,
    BTRFS_INODE_READONLY, BTRFS_INODE_SYNC, BTRFS_SUPPORTED_FS_MASK, FS_APPEND_FL, FS_COMPR_FL,
    FS_DIRSYNC_FL, FS_EXTENT_FL, FS_IMMUTABLE_FL, FS_NOATIME_FL, FS_NOCOMP_FL, FS_NOCOW_FL,
    FS_NODUMP_FL, FS_SYNC_FL,
};

#[test]
fn nodatacow_translates_to_nocow() {
    assert_eq!(btrfs_to_fs(BTRFS_INODE_NODATACOW), FS_NOCOW_FL);
}

#[test]
fn immutable_and_nocow_combine() {
    let b = BTRFS_INODE_IMMUTABLE | BTRFS_INODE_NODATACOW;
    let f = btrfs_to_fs(b);
    assert!(f & FS_IMMUTABLE_FL != 0);
    assert!(f & FS_NOCOW_FL != 0);
}

#[test]
fn unmapped_btrfs_bits_drop() {
    // NODATASUM/READONLY/PREALLOC are not exposed via FS_IOC_GETFLAGS.
    let b = BTRFS_INODE_NODATASUM | BTRFS_INODE_READONLY | BTRFS_INODE_PREALLOC;
    assert_eq!(btrfs_to_fs(b), 0);
}

#[test]
fn letters_count_matches_lsattr() {
    assert_eq!(letters().len(), 22);
}

#[test]
fn letters_in_canonical_order() {
    let order: String = letters().iter().map(|l| l.letter).collect();
    assert_eq!(order, "suSDiadAcEjItTeCxFNPVm");
}

#[test]
fn letters_to_mask_simple() {
    assert_eq!(letters_to_mask("C").unwrap(), FS_NOCOW_FL);
    assert_eq!(
        letters_to_mask("Ci").unwrap(),
        FS_NOCOW_FL | FS_IMMUTABLE_FL
    );
}

#[test]
fn letters_to_mask_unknown() {
    assert_eq!(letters_to_mask("Cz"), Err('z'));
}

#[test]
fn btrfs_supported_mask_is_exact_fast_path_subset() {
    assert_eq!(
        BTRFS_SUPPORTED_FS_MASK,
        letters_to_mask("SiadADcmC").unwrap()
    );
}

#[test]
fn every_btrfs_bit_has_its_own_attribute() {
    let pairs = [
        (BTRFS_INODE_SYNC, FS_SYNC_FL),
        (BTRFS_INODE_IMMUTABLE, FS_IMMUTABLE_FL),
        (BTRFS_INODE_APPEND, FS_APPEND_FL),
        (BTRFS_INODE_NODUMP, FS_NODUMP_FL),
        (BTRFS_INODE_NOATIME, FS_NOATIME_FL),
        (BTRFS_INODE_DIRSYNC, FS_DIRSYNC_FL),
        (BTRFS_INODE_COMPRESS, FS_COMPR_FL),
        (BTRFS_INODE_NOCOMPRESS, FS_NOCOMP_FL),
        (BTRFS_INODE_NODATACOW, FS_NOCOW_FL),
    ];
    let mut btrfs = 0u64;
    let mut fs = 0u32;
    for (b, f) in pairs {
        assert_eq!(btrfs_to_fs(b), f);
        btrfs |= b;
        fs |= f;
    }
    assert_eq!(btrfs_to_fs(btrfs), fs);
    assert_eq!(fs, BTRFS_SUPPORTED_FS_MASK);
    assert_eq!(btrfs_to_fs(u64::MAX), fs);
}

#[test]
fn letters_and_bits_are_distinct() {
    let table = letters();
    for i in 0..table.len() {
        assert_eq!(table[i].bit.count_ones(), 1);
        assert_eq!(letter_bit(table[i].letter), Some(table[i].bit));
        for j in 0..i {
            assert_ne!(table[i].letter, table[j].letter);
            assert_ne!(table[i].bit, table[j].bit);
        }
    }
    assert_eq!(letter_bit('-'), None);
}

#[test]
fn first_unknown_letter_is_the_error() {
    assert_eq!(letters_to_mask("qz"), Err('q'));
    assert_eq!(letters_to_mask("C\u{e9}z"), Err('\u{e9}'));
    assert_eq!(letters_to_mask(""), Ok(0));
    assert_eq!(letters_to_mask("CC"), Ok(FS_NOCOW_FL));
}

fn cli_for_has(project: bool, generation: bool) -> Cli {
    Cli {
        recursive: false,
        print_version: false,
        all: false,
        dirs_opt: false,
        long: false,
        generation,
        project,
        has: Some("C".to_string()),
        paths_only: false,
        paths: Vec::new(),
    }
}

#[test]
fn fast_has_accepts_btrfs_supported_mask_without_metadata_columns() {
    let cli = cli_for_has(false, false);
    assert!(can_use_fast_has_path(
        &cli,
        letters_to_mask("SiadADcmC").unwrap()
    ));
}

#[test]
fn fast_has_rejects_unsupported_mask_bits() {
    let cli = cli_for_has(false, false);
    assert!(!can_use_fast_has_path(&cli, letters_to_mask("e").unwrap()));
}

#[test]
fn fast_has_rejects_project_or_generation_columns() {
    assert!(!can_use_fast_has_path(
        &cli_for_has(true, false),
        letters_to_mask("C").unwrap()
    ));
    assert!(!can_use_fast_has_path(
        &cli_for_has(false, true),
        letters_to_mask("C").unwrap()
    ));
}

#[test]
fn fast_has_rejects_a_mixed_mask() {
    let cli = cli_for_has(false, false);
    assert!(!can_use_fast_has_path(&cli, FS_NOCOW_FL | FS_EXTENT_FL));
}

#[test]
fn filter_comes_from_the_letters() {
    let mut cli = cli_for_has(false, false);
    assert_eq!(has_mask(&cli), Ok(FS_NOCOW_FL));
    cli.has = Some("iC".to_string());
    assert_eq!(has_mask(&cli), Ok(FS_NOCOW_FL | FS_IMMUTABLE_FL));
    cli.has = None;
    assert_eq!(has_mask(&cli), Ok(0));
}

#[test]
fn empty_filter_is_refused() {
    let mut cli = cli_for_has(false, false);
    cli.has = Some(String::new());
    assert_eq!(has_mask(&cli), Err(UsageError::EmptyFilter));
    assert_eq!(
        UsageError::EmptyFilter.message(),
        "btrfs-lsattr: --has: empty filter"
    );
    assert_eq!(USAGE_STATUS, 2);
}

#[test]
fn unknown_letter_is_refused() {
    let mut cli = cli_for_has(false, false);
    cli.has = Some("C\u{fc}q".to_string());
    assert_eq!(has_mask(&cli), Err(UsageError::UnknownLetter('\u{fc}')));
    assert_eq!(
        UsageError::UnknownLetter('\u{fc}').message(),
        "btrfs-lsattr: --has: unknown letter '\u{fc}'"
    );
}

#[test]
fn long_and_paths_only_exclude_each_other() {
    let mut cli = cli_for_has(false, false);
    cli.long = true;
    cli.paths_only = true;
    cli.has = Some("q".to_string());
    assert_eq!(has_mask(&cli), Err(UsageError::LongPathsOnly));
    assert_eq!(
        UsageError::LongPathsOnly.message(),
        "btrfs-lsattr: -l and --paths-only are mutually exclusive"
    );
}

#[test]
fn filtered_walk_forces_recursion_and_dotfiles() {
    let mut cli = cli_for_has(true, true);
    cli.dirs_opt = true;
    cli.long = true;
    let opts = filtered_walk_opts(&cli, FS_NOCOW_FL);
    assert!(opts.recursive && opts.all && !opts.dirs_opt);
    assert!(opts.long && opts.project && opts.generation && !opts.paths_only);
    assert_eq!(opts.has_mask, FS_NOCOW_FL);
    let plain = plain_walk_opts(&cli);
    assert!(!plain.recursive && !plain.all && plain.dirs_opt);
    assert_eq!(plain.has_mask, 0);
}
