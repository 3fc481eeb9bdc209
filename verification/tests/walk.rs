use btrfs_lsattr::errors::{WriteResult, EINVAL, ENOENT};
use btrfs_lsattr::list::{Listing, S_IFDIR, S_IFREG};
use btrfs_lsattr::walk::{write_dir_header, Opts, WalkPhase, Walker};

fn opts(recursive: bool, all: bool, dirs_opt: bool) -> Opts {
    Opts {
        recursive,
        all,
        dirs_opt,
        long: false,
        paths_only: false,
        project: false,
        generation: false,
        has_mask: 0,
    }
}

/// A directory tree, by path.
struct Fs {
    dirs: Vec<(&'static str, Vec<&'static str>)>,
    locked: Vec<&'static str>,
    missing: Vec<&'static str>,
    unlistable: Vec<&'static str>,
    pipe_closes_at: Option<usize>,
}

fn tree() -> Fs {
    Fs {
        dirs: vec![
            ("d", vec![".", "..", "a", ".hid", "sub"]),
            ("d/.", vec![]),
            ("d/..", vec![]),
            ("d/sub", vec![".", "..", "x"]),
            ("d/sub/.", vec![]),
            ("d/sub/..", vec![]),
        ],
        locked: vec![],
        missing: vec![],
        unlistable: vec![],
        pipe_closes_at: None,
    }
}

fn text(b: &[u8]) -> String {
    String::from_utf8(b.to_vec()).unwrap()
}

impl Fs {
    fn entries(&self, path: &str) -> Option<Vec<&'static str>> {
        for (p, e) in &self.dirs {
            if *p == path {
                return Some(e.clone());
            }
        }
        None
    }

    /// Drive a walk over one argument; one line for each listing, one for each
    /// report, and the raw header and section-end bytes.
    fn run(&self, walker: &mut Walker, arg: &[u8]) -> String {
        let mut out = String::new();
        let mut listed = 0;
        let mut open: Vec<Vec<&'static str>> = Vec::new();
        walker.list_arg(arg);
        for _ in 0..1000 {
            let path = text(walker.path());
            match walker.phase() {
                WalkPhase::Idle => return out,
                WalkPhase::StatArg | WalkPhase::StatEntry => {
                    if self.missing.contains(&path.as_str()) {
                        walker.on_stat(Err(ENOENT));
                    } else if self.entries(&path).is_some() {
                        walker.on_stat(Ok(S_IFDIR | 0o755));
                    } else {
                        walker.on_stat(Ok(S_IFREG | 0o644));
                    }
                }
                WalkPhase::ListArg | WalkPhase::ListEntry => {
                    listed += 1;
                    if self.pipe_closes_at == Some(listed) {
                        walker.list_attributes(Listing::PipeClosed);
                    } else if self.unlistable.contains(&path.as_str()) {
                        walker.list_attributes(Listing::Reported);
                    } else {
                        out.push_str(&path);
                        out.push('\n');
                        walker.list_attributes(Listing::Handled);
                    }
                }
                WalkPhase::ReportArg(e) => {
                    out.push_str(&format!("!arg {} {}\n", path.replace('\0', "?"), e));
                    walker.on_done();
                }
                WalkPhase::ReportEntry(e) => {
                    out.push_str(&format!("!entry {} {}\n", path, e));
                    walker.on_done();
                }
                WalkPhase::ReportDir(e) => {
                    let dir = text(walker.dir().unwrap());
                    out.push_str(&format!("!dir {} {}\n", dir, e));
                    walker.on_done();
                }
                WalkPhase::OpenDir => {
                    if self.locked.contains(&path.as_str()) {
                        walker.on_opened(false);
                    } else {
                        let mut names = self.entries(&path).unwrap();
                        names.reverse();
                        open.push(names);
                        walker.on_opened(true);
                    }
                }
                WalkPhase::ReadDir => match open.last_mut().unwrap().pop() {
                    Some("!5") => walker.on_end(5),
                    Some(name) => walker.on_entry(name.as_bytes()),
                    None => walker.on_end(0),
                },
                WalkPhase::CloseDir => {
                    open.pop();
                    walker.on_done();
                }
                WalkPhase::Header | WalkPhase::Trailer => {
                    if walker.pipe_broken() {
                        walker.write_header_part(WriteResult::BrokenPipe);
                    } else {
                        out.push_str(&text(&walker.output()));
                        walker.write_header_part(WriteResult::Done);
                    }
                }
            }
        }
        panic!("the walk does not end");
    }
}

#[test]
fn directory_is_expanded_one_level() {
    let mut walker = Walker::new(&opts(false, false, false));
    assert_eq!(tree().run(&mut walker, b"d"), "d/a\nd/sub\n");
    assert!(!walker.had_err());
}

#[test]
fn all_entries_show_under_a() {
    let mut walker = Walker::new(&opts(false, true, false));
    assert_eq!(
        tree().run(&mut walker, b"d"),
        "d/.\nd/..\nd/a\nd/.hid\nd/sub\n"
    );
}

#[test]
fn directory_itself_shows_under_d() {
    let mut walker = Walker::new(&opts(true, true, true));
    assert_eq!(tree().run(&mut walker, b"d"), "d\n");
}

#[test]
fn recursion_prints_section_headers() {
    let mut walker = Walker::new(&opts(true, false, false));
    assert_eq!(
        tree().run(&mut walker, b"d"),
        "d/a\nd/sub\n\nd/sub:\nd/sub/x\n\n"
    );
}

#[test]
fn filtered_walk_has_no_headers() {
    let mut o = opts(true, true, false);
    o.has_mask = 16;
    let mut walker = Walker::new(&o);
    assert_eq!(
        tree().run(&mut walker, b"d"),
        "d/a\nd/.hid\nd/sub\nd/sub/x\n"
    );
    let mut o = opts(true, false, false);
    o.paths_only = true;
    let mut walker = Walker::new(&o);
    assert_eq!(tree().run(&mut walker, b"d"), "d/a\nd/sub\nd/sub/x\n");
}

#[test]
fn only_arguments_count_as_errors() {
    let mut fs = tree();
    fs.unlistable = vec!["d/a"];
    fs.missing = vec!["d/.hid"];
    fs.locked = vec!["d/sub"];
    let mut walker = Walker::new(&opts(true, true, false));
    assert_eq!(
        fs.run(&mut walker, b"d"),
        "d/.\nd/..\n!entry d/.hid 2\nd/sub\n\nd/sub:\n\n"
    );
    assert!(!walker.had_err());
    let mut walker = Walker::new(&opts(false, false, false));
    assert_eq!(fs.run(&mut walker, b"d/a"), "");
    assert!(walker.had_err());
}

#[test]
fn locked_argument_is_an_error() {
    let mut fs = tree();
    fs.locked = vec!["d"];
    let mut walker = Walker::new(&opts(false, false, false));
    assert_eq!(fs.run(&mut walker, b"d"), "");
    assert!(walker.had_err());
}

#[test]
fn missing_argument_is_reported() {
    let mut fs = tree();
    fs.missing = vec!["gone"];
    let mut walker = Walker::new(&opts(false, false, false));
    assert_eq!(fs.run(&mut walker, b"gone"), "!arg gone 2\n");
    assert!(walker.had_err());
}

#[test]
fn argument_with_nul_is_reported() {
    let mut walker = Walker::new(&opts(false, false, false));
    assert_eq!(
        tree().run(&mut walker, b"a\0b"),
        format!("!arg a?b {}\n", EINVAL)
    );
    assert!(walker.had_err());
}

#[test]
fn truncated_directory_is_reported() {
    let mut fs = tree();
    fs.dirs = vec![("d", vec!["a", "!5"])];
    let mut walker = Walker::new(&opts(false, false, false));
    assert_eq!(fs.run(&mut walker, b"d"), "d/a\n!dir d 5\n");
    assert!(!walker.had_err());
}

#[test]
fn closed_pipe_ends_the_walk() {
    let mut fs = tree();
    fs.pipe_closes_at = Some(2);
    let mut walker = Walker::new(&opts(true, false, false));
    assert_eq!(fs.run(&mut walker, b"d"), "d/a\n");
    assert!(walker.pipe_broken() && !walker.had_err());
    walker.list_arg(b"d");
    assert!(matches!(walker.phase(), WalkPhase::Idle));
}

#[test]
fn trailing_slash_is_kept() {
    let mut fs = tree();
    fs.dirs = vec![("d/", vec!["a"])];
    let mut walker = Walker::new(&opts(false, false, false));
    assert_eq!(fs.run(&mut walker, b"d/"), "d/a\n");
}

#[test]
fn filtered_walk_keeps_one_trailing_slash() {
    let mut fs = tree();
    fs.dirs = vec![("d///", vec!["a"])];
    let mut o = opts(true, true, false);
    o.has_mask = 16;
    let mut walker = Walker::new(&o);
    assert_eq!(fs.run(&mut walker, b"d///"), "d/a\n");
    // Diagnostics name the argument as it was given.
    fs.dirs = vec![("d///", vec!["a", "!5"])];
    let mut walker = Walker::new(&o);
    assert_eq!(fs.run(&mut walker, b"d///"), "d/a\n!dir d/// 5\n");
    fs.dirs = vec![("d///", vec!["a"])];
    // Without a filter the argument is printed as it was given.
    let mut walker = Walker::new(&opts(false, false, false));
    assert_eq!(fs.run(&mut walker, b"d///"), "d///a\n");
}

#[test]
fn header_has_blank_line_and_colon() {
    let mut w = b"x".to_vec();
    write_dir_header(&mut w, b"d/sub");
    assert_eq!(w, b"x\nd/sub:\n");
}
