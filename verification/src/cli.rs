//! The command line: which options exclude each other, what the filter is, and
//! which way of scanning serves it.

use vstd::prelude::*;
use vstd::string::StringExecFns;

use crate::flags::{letters_to_mask, BTRFS_SUPPORTED_FS_MASK};
use crate::walk::Opts;

verus! {

/// The command line, parsed into options and arguments.
pub struct Cli {
    /// Recursively list attributes of directories and their contents.
    pub recursive: bool,
    /// Print program version to stderr and continue.
    pub print_version: bool,
    /// List all files in directories, including those starting with `.`.
    pub all: bool,
    /// List directories like other files, rather than listing their contents.
    pub dirs_opt: bool,
    /// Long names instead of the letter field.
    pub long: bool,
    /// List the file's version (generation) number.
    pub generation: bool,
    /// List the file's project number.
    pub project: bool,
    /// Filter to inodes that have all these letters set.
    pub has: Option<String>,
    /// Emit just paths, one per line.
    pub paths_only: bool,
    /// Files to inspect.
    pub paths: Vec<Vec<u8>>,
}

/// Why a command line is refused.
#[derive(Clone, Copy, PartialEq, Eq, Debug, Structural)]
pub enum UsageError {
    /// `-l` and `--paths-only` together.
    LongPathsOnly,
    /// `--has` without letters.
    EmptyFilter,
    /// `--has` with this character, which is no attribute letter.
    UnknownLetter(char),
}

/// Exit status of a refused command line.
pub const USAGE_STATUS: u8 = 2;

/// The text that describes a refused command line.
pub open spec fn usage_text(e: UsageError) -> Seq<char> {
    match e {
        UsageError::LongPathsOnly => "btrfs-lsattr: -l and --paths-only are mutually exclusive"@,
        UsageError::EmptyFilter => "btrfs-lsattr: --has: empty filter"@,
        UsageError::UnknownLetter(c) => "btrfs-lsattr: --has: unknown letter '"@ + seq![c] + "'"@,
    }
}

/// `String::push` of std: it appends the given character to the end of the
/// string.
pub assume_specification[ String::push ](s: &mut String, c: char)
    ensures
        final(s)@ == old(s)@.push(c),
;

impl UsageError {
    /// The text that describes this refusal.
    pub fn message(self) -> (text: String)
        ensures
            text@ == usage_text(self),
    {
        match self {
            UsageError::LongPathsOnly => String::from_str(
                "btrfs-lsattr: -l and --paths-only are mutually exclusive",
            ),
            UsageError::EmptyFilter => String::from_str("btrfs-lsattr: --has: empty filter"),
            UsageError::UnknownLetter(c) => {
                let mut text = String::from_str("btrfs-lsattr: --has: unknown letter '");
                text.push(c);
                text.append("'");
                assert(text@ =~= usage_text(self));
                text
            },
        }
    }
}

/// The position of the first character of `s` that is no attribute letter; the
/// length of `s` if there is none.
pub open spec fn letters_end(s: Seq<char>) -> int
    decreases s.len(),
{
    if s.len() == 0 || !crate::flags::is_letter(s[0]) {
        0
    } else {
        1 + letters_end(s.drop_first())
    }
}

/// What the filter argument `has` amounts to: no mask, the mask of its letters,
/// or a refusal.
pub open spec fn filter_of(has: Option<Seq<char>>) -> Result<u32, UsageError> {
    match has {
        None => Ok(0),
        Some(s) => if s.len() == 0 {
            Err(UsageError::EmptyFilter)
        } else if letters_end(s) < s.len() {
            Err(UsageError::UnknownLetter(s[letters_end(s)]))
        } else {
            Ok(crate::flags::mask_of(s))
        },
    }
}

/// The letters of the filter argument.
pub open spec fn has_letters(cli: Cli) -> Option<Seq<char>> {
    match cli.has {
        None => None,
        Some(s) => Some(s@),
    }
}

/// The filter mask of the command line, 0 for no filter, or why the command
/// line is refused.
pub open spec fn filter_mask(cli: Cli) -> Result<u32, UsageError> {
    if cli.long && cli.paths_only {
        Err(UsageError::LongPathsOnly)
    } else {
        filter_of(has_letters(cli))
    }
}

/// Up to its first non-letter a string holds letters only.
proof fn lemma_letters_end(s: Seq<char>, k: int)
    requires
        0 <= k <= s.len(),
        forall|i: int| 0 <= i < k ==> crate::flags::is_letter(#[trigger] s[i]),
        k == s.len() || !crate::flags::is_letter(s[k]),
    ensures
        letters_end(s) == k,
    decreases s.len(),
{
    if k > 0 {
        let rest = s.drop_first();
        assert(crate::flags::is_letter(s[0]));
        assert forall|i: int| 0 <= i < k - 1 implies crate::flags::is_letter(#[trigger] rest[i]) by {
            assert(crate::flags::is_letter(s[i + 1]));
        }
        lemma_letters_end(rest, k - 1);
    }
}

/// The filter mask of a command line, 0 for no filter, or why the command line
/// is refused.
pub fn has_mask(cli: &Cli) -> (r: Result<u32, UsageError>)
    ensures
        r == filter_mask(*cli),
{
    if cli.long && cli.paths_only {
        return Err(UsageError::LongPathsOnly);
    }
    match &cli.has {
        None => Ok(0),
        Some(s) => {
            if s.as_str().unicode_len() == 0 {
                return Err(UsageError::EmptyFilter);
            }
            match letters_to_mask(s.as_str()) {
                Ok(m) => {
                    proof {
                        lemma_letters_end(s@, s@.len() as int);
                    }
                    Ok(m)
                },
                Err(c) => {
                    proof {
                        let k = choose|k: int|
                            {
                                &&& 0 <= k < s@.len()
                                &&& #[trigger] s@[k] == c
                                &&& !crate::flags::is_letter(c)
                                &&& forall|i: int|
                                    0 <= i < k ==> crate::flags::is_letter(#[trigger] s@[i])
                            };
                        lemma_letters_end(s@, k);
                    }
                    Err(UsageError::UnknownLetter(c))
                },
            }
        },
    }
}

/// True when a filter can use the tree search: it touches only bits that btrfs
/// keeps in inode items, and no column is asked for that a tree search cannot
/// fill.
pub fn can_use_fast_has_path(cli: &Cli, has_mask: u32) -> (fast: bool)
    ensures
        fast == is_fast(*cli, has_mask),
{
    !cli.project && !cli.generation && (has_mask & !BTRFS_SUPPORTED_FS_MASK) == 0
}

/// The filter touches only bits that btrfs keeps in inode items, and neither
/// the project nor the generation column is asked for.
pub open spec fn is_fast(cli: Cli, mask: u32) -> bool {
    !cli.project && !cli.generation && mask & !BTRFS_SUPPORTED_FS_MASK == 0
}

/// The options of the filtered walk: always recursive and with dotfiles, so
/// that it sees what a tree search sees, and never `-d`.
pub open spec fn filtered(cli: Cli, mask: u32) -> Opts {
    Opts {
        recursive: true,
        all: true,
        dirs_opt: false,
        long: cli.long,
        paths_only: cli.paths_only,
        project: cli.project,
        generation: cli.generation,
        has_mask: mask,
    }
}

/// The options of the filtered walk.
pub fn filtered_walk_opts(cli: &Cli, has_mask: u32) -> (opts: Opts)
    ensures
        opts == filtered(*cli, has_mask),
{
    Opts {
        recursive: true,
        all: true,
        dirs_opt: false,
        long: cli.long,
        paths_only: cli.paths_only,
        project: cli.project,
        generation: cli.generation,
        has_mask,
    }
}

/// The options of the walk without a filter: as on the command line.
pub open spec fn plain(cli: Cli) -> Opts {
    Opts {
        recursive: cli.recursive,
        all: cli.all,
        dirs_opt: cli.dirs_opt,
        long: cli.long,
        paths_only: cli.paths_only,
        project: cli.project,
        generation: cli.generation,
        has_mask: 0,
    }
}

/// The options of the walk without a filter.
pub fn plain_walk_opts(cli: &Cli) -> (opts: Opts)
    ensures
        opts == plain(*cli),
{
    Opts {
        recursive: cli.recursive,
        all: cli.all,
        dirs_opt: cli.dirs_opt,
        long: cli.long,
        paths_only: cli.paths_only,
        project: cli.project,
        generation: cli.generation,
        has_mask: 0,
    }
}

/// A filter that is accepted selects by at least one bit: a mask of 0 means
/// that there is no filter.
pub proof fn law_filter_is_never_empty(cli: Cli)
    requires
        filter_mask(cli) is Ok,
    ensures
        filter_mask(cli)->Ok_0 == 0 <==> cli.has is None,
{
    if let Some(s) = cli.has {
        lemma_all_letters(s@);
        crate::flags::law_mask_selects_all_letters(s@, 0);
        let c = s@[0];
        assert(crate::flags::is_letter(c));
        assert(0u32 & crate::flags::bit_of(c) == 0) by (bit_vector);
        assert(0u32 & 0u32 == 0u32) by (bit_vector);
    }
}

proof fn lemma_all_letters(s: Seq<char>)
    ensures
        0 <= letters_end(s) <= s.len(),
        letters_end(s) == s.len() ==> forall|i: int|
            0 <= i < s.len() ==> crate::flags::is_letter(#[trigger] s[i]),
    decreases s.len(),
{
    if s.len() > 0 && crate::flags::is_letter(s[0]) {
        let rest = s.drop_first();
        lemma_all_letters(rest);
        if letters_end(s) == s.len() {
            assert forall|i: int| 0 <= i < s.len() implies crate::flags::is_letter(
                #[trigger] s[i],
            ) by {
                if i > 0 {
                    assert(rest[i - 1] == s[i]);
                }
            }
        }
    }
}

/// The filtered walk scans recursively, includes dotfiles and ignores `-d`,
/// whatever the command line says of `-R`, `-a` and `-d`: it leaves nothing out
/// but `.` and `..`, and goes into every directory.
pub proof fn law_filtered_walk_sees_everything(
    cli: Cli,
    mask: u32,
    e: crate::walk_laws::Entry,
    mode: u32,
)
    ensures
        crate::walk_laws::left_out(filtered(cli, mask), e) ==> crate::paths::is_dot_entry(e.name),
        crate::walk_laws::descends(filtered(cli, mask), e, mode) <==> crate::list::mode_is_dir(mode)
            && !crate::paths::is_dot_entry(e.name),
        e.mode == Ok::<u32, i32>(mode) ==> (crate::walk_laws::is_walked(filtered(cli, mask), e)
            <==> crate::list::mode_is_dir(mode)),
{
}

/// Without a filter the walk lists as the command line says: each switch is
/// handed on as it was given.
pub proof fn law_plain_switches(cli: Cli)
    ensures
        plain(cli).recursive == cli.recursive,
        plain(cli).all == cli.all,
        plain(cli).dirs_opt == cli.dirs_opt,
        plain(cli).long == cli.long,
        plain(cli).paths_only == cli.paths_only,
        plain(cli).project == cli.project,
        plain(cli).generation == cli.generation,
        plain(cli).has_mask == 0,
{
}

/// With a filter the switches that say what a row looks like are handed on as
/// they were given, and those that say which files are walked are fixed.
pub proof fn law_filtered_switches(cli: Cli, mask: u32)
    ensures
        filtered(cli, mask).recursive,
        filtered(cli, mask).all,
        !filtered(cli, mask).dirs_opt,
        filtered(cli, mask).long == cli.long,
        filtered(cli, mask).paths_only == cli.paths_only,
        filtered(cli, mask).project == cli.project,
        filtered(cli, mask).generation == cli.generation,
        filtered(cli, mask).has_mask == mask,
{
}

/// Without a filter, `-R` goes into every directory but `.` and `..` and into
/// none without it, `-a` lists the names that start with a dot and none are
/// listed without it, and `-d` keeps the walk out of an argument that is a
/// directory.
pub proof fn law_plain_walk_obeys_switches(cli: Cli, e: crate::walk_laws::Entry, mode: u32)
    requires
        e.mode == Ok::<u32, i32>(mode),
    ensures
        ({
            let is_directory = mode & 0o170000 == 0o040000;
            let is_dot = crate::scan_steps::is_self_or_parent(e.name);
            &&& crate::walk_laws::descends(plain(cli), e, mode) <==> cli.recursive && is_directory
                && !is_dot
            &&& crate::walk_laws::left_out(plain(cli), e) <==> !cli.all && e.name.len() > 0
                && e.name[0] == 0x2e
            &&& crate::walk_laws::is_walked(plain(cli), e) <==> !cli.dirs_opt && is_directory
        }),
{
    crate::paths::law_names_by_bytes(e.name);
}

/// With a filter every directory but `.` and `..` is gone into, only these two
/// are left out, and an argument that is a directory is walked.
pub proof fn law_filtered_walk_obeys_no_switch(
    cli: Cli,
    mask: u32,
    e: crate::walk_laws::Entry,
    mode: u32,
)
    requires
        mask != 0,
        e.mode == Ok::<u32, i32>(mode),
    ensures
        ({
            let is_directory = mode & 0o170000 == 0o040000;
            let is_dot = crate::scan_steps::is_self_or_parent(e.name);
            &&& crate::walk_laws::descends(filtered(cli, mask), e, mode) <==> is_directory
                && !is_dot
            &&& crate::walk_laws::left_out(filtered(cli, mask), e) <==> is_dot
            &&& crate::walk_laws::is_walked(filtered(cli, mask), e) <==> is_directory
        }),
{
    crate::paths::law_names_by_bytes(e.name);
}

/// A tree search serves a filter iff neither the project nor the generation is
/// to be shown and each bit of the filter is one that btrfs keeps.
pub proof fn law_searchable_filters(cli: Cli, mask: u32)
    ensures
        is_fast(cli, mask) <==> !cli.project && !cli.generation && crate::flags::sets_every_bit(
            0x8104fc,
            mask,
        ),
{
    crate::flags::law_searchable_bits();
    crate::flags::law_filter_is_bitwise(0x8104fc, mask);
    assert(mask & !0x8104fcu32 == 0 <==> 0x8104fc & mask == mask) by (bit_vector);
}

/// Which command lines are accepted, and with which filter. `-l` excludes
/// `--paths-only`. Of a filter the first character that is no letter is
/// refused; a filter of letters selects the files that have the attribute of
/// each of its letters.
pub proof fn law_accepted_command_lines(cli: Cli, k: int, flags: u32)
    ensures
        cli.long && cli.paths_only ==> filter_mask(cli) == Err::<u32, UsageError>(
            UsageError::LongPathsOnly,
        ),
        !(cli.long && cli.paths_only) ==> match cli.has {
            None => filter_mask(cli) == Ok::<u32, UsageError>(0),
            Some(s) => {
                let letters = s@;
                &&& letters.len() == 0 ==> filter_mask(cli) == Err::<u32, UsageError>(
                    UsageError::EmptyFilter,
                )
                &&& 0 <= k < letters.len() && !crate::flags::is_printed_letter(letters[k]) && (
                forall|i: int| 0 <= i < k ==> crate::flags::is_printed_letter(#[trigger] letters[i]))
                    ==> filter_mask(cli) == Err::<u32, UsageError>(
                    UsageError::UnknownLetter(letters[k]),
                )
                &&& letters.len() > 0 && (forall|i: int|
                    0 <= i < letters.len() ==> crate::flags::is_printed_letter(
                        #[trigger] letters[i],
                    )) ==> {
                    &&& filter_mask(cli) is Ok
                    &&& crate::flags::sets_every_bit(flags, filter_mask(cli)->Ok_0) <==> forall|
                        i: int,
                    |
                        0 <= i < letters.len() ==> flags & crate::flags::bit_of(
                            #[trigger] letters[i],
                        ) != 0
                }
            },
        },
{
    if !(cli.long && cli.paths_only) {
        if let Some(s) = cli.has {
            let letters = s@;
            assert forall|i: int| 0 <= i < letters.len() implies crate::flags::is_letter(
                letters[i],
            ) == crate::flags::is_printed_letter(#[trigger] letters[i]) by {
                crate::flags::law_known_letters(letters[i]);
            }
            if 0 <= k < letters.len() && !crate::flags::is_printed_letter(letters[k]) && (forall|
                i: int,
            |
                0 <= i < k ==> crate::flags::is_printed_letter(#[trigger] letters[i])) {
                lemma_letters_end(letters, k);
            }
            if forall|i: int|
                0 <= i < letters.len() ==> crate::flags::is_printed_letter(#[trigger] letters[i]) {
                assert forall|i: int| 0 <= i < letters.len() implies crate::flags::is_letter(
                    #[trigger] letters[i],
                ) by {
                    assert(crate::flags::is_printed_letter(letters[i]));
                }
                lemma_letters_end(letters, letters.len() as int);
                crate::flags::law_mask_selects_all_letters(letters, flags);
                crate::flags::law_filter_is_bitwise(flags, crate::flags::mask_of(letters));
            }
        }
    }
}

/// A refusal names the program and the option, and an unknown letter in quotes.
pub proof fn law_refusals_in_words(c: char)
    ensures
        usage_text(UsageError::LongPathsOnly) == "btrfs-lsattr: "@
            + "-l and --paths-only are mutually exclusive"@,
        usage_text(UsageError::EmptyFilter) == "btrfs-lsattr: --has: "@ + "empty filter"@,
        usage_text(UsageError::UnknownLetter(c)) == "btrfs-lsattr: --has: "@ + "unknown letter "@
            + seq!['\'', c, '\''],
{
    reveal_strlit("btrfs-lsattr: ");
    reveal_strlit("-l and --paths-only are mutually exclusive");
    reveal_strlit("btrfs-lsattr: -l and --paths-only are mutually exclusive");
    reveal_strlit("btrfs-lsattr: --has: ");
    reveal_strlit("empty filter");
    reveal_strlit("btrfs-lsattr: --has: empty filter");
    reveal_strlit("unknown letter ");
    reveal_strlit("btrfs-lsattr: --has: unknown letter '");
    reveal_strlit("'");
    assert(usage_text(UsageError::LongPathsOnly) =~= "btrfs-lsattr: "@
        + "-l and --paths-only are mutually exclusive"@);
    assert(usage_text(UsageError::EmptyFilter) =~= "btrfs-lsattr: --has: "@ + "empty filter"@);
    assert(usage_text(UsageError::UnknownLetter(c)) =~= "btrfs-lsattr: --has: "@
        + "unknown letter "@ + seq!['\'', c, '\'']);
}

} // verus!
