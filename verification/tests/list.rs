use btrfs_lsattr::errors::{WriteResult, EINVAL, ENOENT, ENOTTY, ENXIO};
use btrfs_lsattr::flags::{letters, FS_IMMUTABLE_FL, FS_NOCOW_FL};
use btrfs_lsattr::list::{is_dir, ErrnoCodes, ListOne, ListPhase, Listing, S_IFDIR, S_IFREG};
use btrfs_lsattr::report::Diagnostic;
use btrfs_lsattr::walk::Opts;

fn base_opts() -> Opts {
    Opts {
        recursive: true,
        all: true,
        dirs_opt: false,
        long: false,
        paths_only: false,
        project: false,
        generation: false,
        has_mask: 0,
    }
}

/// How a file answers.
struct File {
    open: Result<(), i32>,
    mode: Option<u32>,
    flags: Result<u64, i32>,
    project: Result<u32, i32>,
    version: Result<u64, i32>,
    write: WriteResult,
}

fn plain_file() -> File {
    File {
        open: Ok(()),
        mode: Some(S_IFREG | 0o644),
        flags: Ok(0),
        project: Ok(7),
        version: Ok(42),
        write: WriteResult::Done,
    }
}

/// Drive a listing to its end: how it ended, its rows, its diagnostics.
fn list(mut one: ListOne, file: &File) -> (Listing, Vec<u8>, Vec<(Diagnostic, i32)>) {
    let mut out = Vec::new();
    let mut reports = Vec::new();
    for _ in 0..8 {
        match one.phase() {
            ListPhase::Open => one.on_open(file.open),
            ListPhase::Stat => one.on_stat(file.mode),
            ListPhase::GetFlags => one.on_flags(file.flags),
            ListPhase::GetProject => one.on_project(file.project),
            ListPhase::GetVersion => one.on_version(file.version),
            ListPhase::Write => {
                out.extend_from_slice(&one.row());
                one.on_written(file.write);
            }
            ListPhase::Report(d, e) => {
                reports.push((d, e));
                one.on_reported();
            }
            ListPhase::WarnWrite => {
                reports.push((Diagnostic::Write, 0));
                one.on_reported();
            }
            ListPhase::Finished(listing) => return (listing, out, reports),
        }
    }
    match one.phase() {
        ListPhase::Finished(listing) => (listing, out, reports),
        _ => panic!("the listing does not end"),
    }
}

fn list_path(path: &[u8], opts: &Opts, file: &File) -> (Listing, Vec<u8>, Vec<(Diagnostic, i32)>) {
    list(ListOne::new(path, opts), file)
}

#[test]
fn list_one_reports_missing_path() {
    let mut file = plain_file();
    file.open = Err(ENOENT);
    // ENOENT is a real error, not a broken pipe: reported, no output.
    let (r, out, reports) = list_path(b"/nonexistent/btrfs-lsattr/xyz", &base_opts(), &file);
    assert!(matches!(r, Listing::Reported));
    assert!(out.is_empty());
    assert_eq!(reports, vec![(Diagnostic::Flags, ENOENT)]);
}

#[test]
fn listed_file_has_one_row() {
    let bytes = b"/tmp/file";
    let (r, out, _) = list_path(bytes, &base_opts(), &plain_file());
    assert!(matches!(r, Listing::Handled));
    // Byte-layout contract: 22-char attr field + space + path + LF.
    assert_eq!(out.len(), 22 + 1 + bytes.len() + 1);
    let mut tail = vec![b' '];
    tail.extend_from_slice(bytes);
    tail.push(b'\n');
    assert_eq!(&out[22..], &tail[..]);
    let allowed: Vec<u8> = letters().iter().map(|l| l.letter as u8).collect();
    for &c in &out[..22] {
        assert!(c == b'-' || allowed.contains(&c));
    }
}

#[test]
fn filter_miss_emits_nothing() {
    let mut opts = base_opts();
    opts.has_mask = FS_IMMUTABLE_FL;
    let (r, out, reports) = list_path(b"/tmp/file", &opts, &plain_file());
    // Filtered out: handled but produces no line.
    assert!(matches!(r, Listing::Handled));
    assert!(out.is_empty() && reports.is_empty());
}

#[test]
fn filter_wants_all_bits() {
    let mut opts = base_opts();
    opts.has_mask = FS_IMMUTABLE_FL | FS_NOCOW_FL;
    opts.paths_only = true;
    let mut file = plain_file();
    file.flags = Ok(FS_NOCOW_FL as u64);
    assert!(list_path(b"f", &opts, &file).1.is_empty());
    file.flags = Ok((FS_NOCOW_FL | FS_IMMUTABLE_FL | 1) as u64);
    assert_eq!(list_path(b"f", &opts, &file).1, b"f\n");
}

#[test]
fn upper_half_of_the_flags_is_ignored() {
    let mut file = plain_file();
    file.flags = Ok(0xdead_beef_0000_0010);
    let (_, out, _) = list_path(b"f", &base_opts(), &file);
    assert_eq!(out, b"----i----------------- f\n");
}

#[test]
fn columns_are_read_only_when_asked_for() {
    let mut opts = base_opts();
    let mut file = plain_file();
    file.version = Ok(0x1_0000_0005);
    opts.project = true;
    opts.generation = true;
    let (_, out, _) = list_path(b"f", &opts, &file);
    assert_eq!(out, b"    7 5          ---------------------- f\n");
    file.project = Err(5);
    let (r, out, reports) = list_path(b"f", &opts, &file);
    assert!(matches!(r, Listing::Reported) && out.is_empty());
    assert_eq!(reports, vec![(Diagnostic::Project, 5)]);
    file.project = Ok(0);
    file.version = Err(6);
    let (_, _, reports) = list_path(b"f", &opts, &file);
    assert_eq!(reports, vec![(Diagnostic::Version, 6)]);
    assert!(matches!(list_path(b"f", &base_opts(), &file).0, Listing::Handled));
}

#[test]
fn unsupported_files_have_their_own_errno() {
    let codes = ErrnoCodes { eloop: 1040, eopnotsupp: 1095 };
    let opts = base_opts();
    let one = || ListOne::with_codes(b"f", &opts, codes);
    let mut file = plain_file();
    file.open = Err(1040);
    assert_eq!(list(one(), &file).2, vec![(Diagnostic::Flags, 1095)]);
    file.open = Err(ENXIO);
    assert_eq!(list(one(), &file).2, vec![(Diagnostic::Flags, 1095)]);
    file.open = Err(ENOTTY);
    assert_eq!(list(one(), &file).2, vec![(Diagnostic::Flags, ENOTTY)]);
    file.open = Ok(());
    file.flags = Err(ENOTTY);
    assert_eq!(list(one(), &file).2, vec![(Diagnostic::Flags, 1095)]);
    file.flags = Err(1040);
    assert_eq!(list(one(), &file).2, vec![(Diagnostic::Flags, 1040)]);
    file.mode = Some(0o020000);
    file.flags = Ok(0);
    assert_eq!(list(one(), &file).2, vec![(Diagnostic::Flags, 1095)]);
    file.mode = None;
    assert!(matches!(list(one(), &file).0, Listing::Handled));
}

#[test]
fn errno_numbers_come_from_the_system() {
    let mut file = plain_file();
    file.open = Err(libc::ELOOP);
    let (_, _, reports) = list_path(b"link", &base_opts(), &file);
    assert_eq!(reports, vec![(Diagnostic::Flags, libc::EOPNOTSUPP)]);
}

#[test]
fn path_with_nul_is_not_opened() {
    let (r, out, reports) = list_path(b"a\0b", &base_opts(), &plain_file());
    assert!(matches!(r, Listing::Reported) && out.is_empty());
    assert_eq!(reports, vec![(Diagnostic::Flags, EINVAL)]);
}

#[test]
fn write_failures_are_told_apart() {
    let mut file = plain_file();
    file.write = WriteResult::BrokenPipe;
    let (r, _, reports) = list_path(b"f", &base_opts(), &file);
    assert!(matches!(r, Listing::PipeClosed) && reports.is_empty());
    file.write = WriteResult::Failed;
    let (r, _, reports) = list_path(b"f", &base_opts(), &file);
    assert!(matches!(r, Listing::Reported));
    assert_eq!(reports.len(), 1);
}

#[test]
fn answers_to_another_phase_are_ignored() {
    let mut one = ListOne::new(b"f", &base_opts());
    one.on_written(WriteResult::Done);
    one.on_flags(Ok(0));
    one.on_reported();
    assert!(matches!(one.phase(), ListPhase::Open));
}

#[test]
fn directories_are_recognised() {
    assert!(is_dir(S_IFDIR | 0o755));
    assert!(!is_dir(S_IFREG | 0o755));
    assert!(!is_dir(0o120777));
}
