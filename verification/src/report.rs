//! Diagnostic lines for stderr, worded as `lsattr` words them: `com_err`
//! prints the program, the errno text, the message and the path, with blanks
//! between them.

use vstd::prelude::*;
use vstd::string::StringExecFns;

verus! {

/// What a diagnostic line is about.
#[derive(Clone, Copy, PartialEq, Eq, Debug, Structural)]
pub enum Diagnostic {
    /// An argument could not be examined.
    Stat,
    /// The attributes of a file could not be read.
    Flags,
    /// The project of a file could not be read.
    Project,
    /// The generation of a file could not be read.
    Version,
    /// A directory could not be opened.
    OpenDirectory,
    /// A directory could not be read to its end.
    ReadDirectory,
    /// A directory entry could not be examined.
    Entry,
    /// A path that no system call can take.
    InvalidPath,
    /// The tree search of an argument failed without an errno.
    Scan,
    /// The tree search of a nested subvolume failed.
    Fallback,
    /// A row could not be written.
    Write,
    /// The output could not be flushed.
    Flush,
}

/// The line of `com_err`: program, cause, message and path.
pub open spec fn com_err(what: Seq<char>, path: Seq<char>, cause: Seq<char>) -> Seq<char> {
    "btrfs-lsattr: "@ + cause + " "@ + what + " "@ + path
}

/// The text of the diagnostic `d` about `path`, with `cause` as its reason.
pub open spec fn rendered(d: Diagnostic, path: Seq<char>, cause: Seq<char>) -> Seq<char> {
    match d {
        Diagnostic::Stat => com_err("while trying to stat"@, path, cause),
        Diagnostic::Flags => com_err("While reading flags on"@, path, cause),
        Diagnostic::Project => com_err("While reading project on"@, path, cause),
        Diagnostic::Version => com_err("While reading version on"@, path, cause),
        Diagnostic::OpenDirectory => com_err("While opening directory"@, path, cause),
        Diagnostic::ReadDirectory => com_err("While reading directory"@, path, cause),
        Diagnostic::Entry => path + ": "@ + cause,
        Diagnostic::InvalidPath => "btrfs-lsattr: "@ + path + ": invalid path"@,
        Diagnostic::Scan => "btrfs-lsattr: "@ + path + ": "@ + cause,
        Diagnostic::Fallback => "btrfs-lsattr: "@ + path + ": tree-search failed ("@ + cause
            + "); falling back to per-file walk"@,
        Diagnostic::Write => "btrfs-lsattr: write: "@ + cause,
        Diagnostic::Flush => "btrfs-lsattr: flush: "@ + cause,
    }
}

/// The text that `String::from_utf8_lossy` decodes from `bytes`.
pub uninterp spec fn utf8_lossy(bytes: Seq<u8>) -> Seq<char>;

/// Calls `String::from_utf8_lossy` of std. Its text is a function of the bytes
/// alone, and for valid UTF-8 it is the text that the bytes encode; how
/// invalid bytes are replaced is left to the name `utf8_lossy`.
#[verifier::external_body]
fn lossy(b: &[u8]) -> (text: String)
    ensures
        text@ == utf8_lossy(b@),
        vstd::utf8::valid_utf8(b@) ==> text@ == vstd::utf8::decode_utf8(b@),
{
    String::from_utf8_lossy(b).into_owned()
}

/// The line of `com_err`.
fn com_err_line(what: &str, path: &str, cause: &str) -> (line: String)
    ensures
        line@ == com_err(what@, path@, cause@),
{
    let mut line = String::from_str("btrfs-lsattr: ");
    line.append(cause);
    line.append(" ");
    line.append(what);
    line.append(" ");
    line.append(path);
    line
}

/// The text of the diagnostic `d` about `path`, with `cause` as its reason.
pub fn render(d: Diagnostic, path: &str, cause: &str) -> (line: String)
    ensures
        line@ == rendered(d, path@, cause@),
{
    match d {
        Diagnostic::Stat => com_err_line("while trying to stat", path, cause),
        Diagnostic::Flags => com_err_line("While reading flags on", path, cause),
        Diagnostic::Project => com_err_line("While reading project on", path, cause),
        Diagnostic::Version => com_err_line("While reading version on", path, cause),
        Diagnostic::OpenDirectory => com_err_line("While opening directory", path, cause),
        Diagnostic::ReadDirectory => com_err_line("While reading directory", path, cause),
        Diagnostic::Entry => {
            let mut line = String::from_str(path);
            line.append(": ");
            line.append(cause);
            line
        },
        Diagnostic::InvalidPath => {
            let mut line = String::from_str("btrfs-lsattr: ");
            line.append(path);
            line.append(": invalid path");
            line
        },
        Diagnostic::Scan => {
            let mut line = String::from_str("btrfs-lsattr: ");
            line.append(path);
            line.append(": ");
            line.append(cause);
            line
        },
        Diagnostic::Fallback => {
            let mut line = String::from_str("btrfs-lsattr: ");
            line.append(path);
            line.append(": tree-search failed (");
            line.append(cause);
            line.append("); falling back to per-file walk");
            line
        },
        Diagnostic::Write => {
            let mut line = String::from_str("btrfs-lsattr: write: ");
            line.append(cause);
            line
        },
        Diagnostic::Flush => {
            let mut line = String::from_str("btrfs-lsattr: flush: ");
            line.append(cause);
            line
        },
    }
}

/// The diagnostic line `d` about `path`, with `cause` as its reason. Bytes of
/// the path that are no UTF-8 are replaced.
pub fn report(d: Diagnostic, path: &[u8], cause: &str) -> (line: String)
    ensures
        line@ == rendered(d, utf8_lossy(path@), cause@),
        vstd::utf8::valid_utf8(path@) ==> line@ == rendered(
            d,
            vstd::utf8::decode_utf8(path@),
            cause@,
        ),
{
    let text = lossy(path);
    render(d, text.as_str(), cause)
}

/// The diagnostic line for a file whose attributes could not be read.
pub fn report_flags(path: &[u8], cause: &str) -> (line: String)
    ensures
        line@ == rendered(Diagnostic::Flags, utf8_lossy(path@), cause@),
        vstd::utf8::valid_utf8(path@) ==> line@ == rendered(
            Diagnostic::Flags,
            vstd::utf8::decode_utf8(path@),
            cause@,
        ),
{
    report(Diagnostic::Flags, path, cause)
}

/// Each diagnostic in words: what `com_err` prints has the cause before the
/// message and the path after it, an entry is told of without the program's
/// name, and the others have the program first and the cause last.
pub proof fn law_diagnostics_in_words(path: Seq<char>, cause: Seq<char>)
    ensures
        rendered(Diagnostic::Stat, path, cause) == "btrfs-lsattr: "@ + cause
            + " while trying to stat "@ + path,
        rendered(Diagnostic::Flags, path, cause) == "btrfs-lsattr: "@ + cause
            + " While reading flags on "@ + path,
        rendered(Diagnostic::Project, path, cause) == "btrfs-lsattr: "@ + cause
            + " While reading project on "@ + path,
        rendered(Diagnostic::Version, path, cause) == "btrfs-lsattr: "@ + cause
            + " While reading version on "@ + path,
        rendered(Diagnostic::OpenDirectory, path, cause) == "btrfs-lsattr: "@ + cause
            + " While opening directory "@ + path,
        rendered(Diagnostic::ReadDirectory, path, cause) == "btrfs-lsattr: "@ + cause
            + " While reading directory "@ + path,
        rendered(Diagnostic::Entry, path, cause) == path + seq![':', ' '] + cause,
        rendered(Diagnostic::InvalidPath, path, cause) == "btrfs-lsattr: "@ + path + seq![':', ' ']
            + "invalid path"@,
        rendered(Diagnostic::Scan, path, cause) == "btrfs-lsattr: "@ + path + seq![':', ' ']
            + cause,
        rendered(Diagnostic::Fallback, path, cause) == "btrfs-lsattr: "@ + path + seq![':', ' ']
            + "tree-search failed "@ + seq!['('] + cause + seq![')', ';', ' ']
            + "falling back to per-file walk"@,
        rendered(Diagnostic::Write, path, cause) == "btrfs-lsattr: "@ + "write: "@ + cause,
        rendered(Diagnostic::Flush, path, cause) == "btrfs-lsattr: "@ + "flush: "@ + cause,
{
    reveal_strlit(" ");
    reveal_strlit(" While opening directory ");
    reveal_strlit(" While reading directory ");
    reveal_strlit(" While reading flags on ");
    reveal_strlit(" While reading project on ");
    reveal_strlit(" While reading version on ");
    reveal_strlit(" while trying to stat ");
    reveal_strlit("While opening directory");
    reveal_strlit("While reading directory");
    reveal_strlit("While reading flags on");
    reveal_strlit("While reading project on");
    reveal_strlit("While reading version on");
    reveal_strlit("btrfs-lsattr: ");
    reveal_strlit("while trying to stat");
    reveal_strlit(": ");
    reveal_strlit(": invalid path");
    reveal_strlit("invalid path");
    reveal_strlit(": tree-search failed (");
    reveal_strlit("tree-search failed ");
    reveal_strlit("); falling back to per-file walk");
    reveal_strlit("falling back to per-file walk");
    reveal_strlit("btrfs-lsattr: write: ");
    reveal_strlit("write: ");
    reveal_strlit("btrfs-lsattr: flush: ");
    reveal_strlit("flush: ");
    assert(rendered(Diagnostic::Stat, path, cause) =~= "btrfs-lsattr: "@ + cause
        + " while trying to stat "@ + path);
    assert(rendered(Diagnostic::Flags, path, cause) =~= "btrfs-lsattr: "@ + cause
        + " While reading flags on "@ + path);
    assert(rendered(Diagnostic::Project, path, cause) =~= "btrfs-lsattr: "@ + cause
        + " While reading project on "@ + path);
    assert(rendered(Diagnostic::Version, path, cause) =~= "btrfs-lsattr: "@ + cause
        + " While reading version on "@ + path);
    assert(rendered(Diagnostic::OpenDirectory, path, cause) =~= "btrfs-lsattr: "@ + cause
        + " While opening directory "@ + path);
    assert(rendered(Diagnostic::ReadDirectory, path, cause) =~= "btrfs-lsattr: "@ + cause
        + " While reading directory "@ + path);
    assert(rendered(Diagnostic::Entry, path, cause) =~= path + seq![':', ' '] + cause);
    assert(rendered(Diagnostic::InvalidPath, path, cause) =~= "btrfs-lsattr: "@ + path
        + seq![':', ' '] + "invalid path"@);
    assert(rendered(Diagnostic::Scan, path, cause) =~= "btrfs-lsattr: "@ + path + seq![':', ' ']
        + cause);
    assert(rendered(Diagnostic::Fallback, path, cause) =~= "btrfs-lsattr: "@ + path
        + seq![':', ' '] + "tree-search failed "@ + seq!['('] + cause + seq![')', ';', ' ']
        + "falling back to per-file walk"@);
    assert(rendered(Diagnostic::Write, path, cause) =~= "btrfs-lsattr: "@ + "write: "@ + cause);
    assert(rendered(Diagnostic::Flush, path, cause) =~= "btrfs-lsattr: "@ + "flush: "@ + cause);
}

} // verus!
