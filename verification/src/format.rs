//! Output rows, byte for byte those of `lsattr`. Each function appends to a
//! byte buffer; writing the buffer out is the caller's part.

use vstd::prelude::*;

use crate::ascii::{BLANK, COMMA, DASH, NEWLINE, ZERO};
use crate::flags::{letters, LetterSpec, LETTER_COUNT};

verus! {

/// Width that a long row pads its path to.
pub const PATH_WIDTH: usize = 28;

/// Width of the project column.
pub const PROJECT_WIDTH: usize = 5;

/// Width of the generation column.
pub const GENERATION_WIDTH: usize = 10;

/// `n` blanks, none for a negative `n`.
pub open spec fn blanks(n: int) -> Seq<u8> {
    Seq::new(if n > 0 { n as nat } else { 0 }, |i: int| BLANK)
}

/// The attribute field: in each column the letter of a set bit, else a dash.
pub open spec fn attr_field(flags: u32) -> Seq<u8> {
    Seq::new(
        crate::flags::letter_table().len(),
        |i: int|
            if flags & crate::flags::letter_table()[i].bit != 0 {
                crate::flags::letter_table()[i].letter as u8
            } else {
                DASH
            },
    )
}

/// A short row: attribute field, blank, path, newline.
pub open spec fn short_line(flags: u32, path: Seq<u8>) -> Seq<u8> {
    attr_field(flags) + seq![BLANK] + path + seq![NEWLINE]
}

/// The UTF-8 bytes of an attribute's long name.
pub open spec fn name_bytes(spec: LetterSpec) -> Seq<u8> {
    vstd::utf8::encode_utf8(spec.long@)
}

/// The long names of the attributes set in `flags` among the first `n`
/// columns, in column order.
pub open spec fn names_set(flags: u32, n: int) -> Seq<Seq<u8>>
    decreases n,
{
    if n <= 0 {
        seq![]
    } else if flags & crate::flags::letter_table()[n - 1].bit != 0 {
        names_set(flags, n - 1).push(name_bytes(crate::flags::letter_table()[n - 1]))
    } else {
        names_set(flags, n - 1)
    }
}

/// `parts` with `, ` between each two neighbours.
pub open spec fn comma_joined(parts: Seq<Seq<u8>>) -> Seq<u8>
    decreases parts.len(),
{
    if parts.len() == 0 {
        seq![]
    } else if parts.len() == 1 {
        parts[0]
    } else {
        comma_joined(parts.drop_last()) + seq![COMMA, BLANK] + parts.last()
    }
}

/// The attribute list of a long row: the long names, or `---` for none.
pub open spec fn long_names(flags: u32) -> Seq<u8> {
    let names = names_set(flags, crate::flags::letter_table().len() as int);
    if names.len() == 0 {
        seq![DASH, DASH, DASH]
    } else {
        comma_joined(names)
    }
}

/// A long row: padded path, blank, attribute list, newline.
pub open spec fn long_line(flags: u32, path: Seq<u8>) -> Seq<u8> {
    path + blanks(PATH_WIDTH - path.len()) + seq![BLANK] + long_names(flags) + seq![NEWLINE]
}

/// A bare row: path, newline.
pub open spec fn path_line(path: Seq<u8>) -> Seq<u8> {
    path + seq![NEWLINE]
}

/// The decimal digits of `n`, without leading zeros.
pub open spec fn decimal(n: nat) -> Seq<u8>
    decreases n,
{
    if n < 10 {
        seq![(ZERO + n) as u8]
    } else {
        decimal(n / 10).push((ZERO + n % 10) as u8)
    }
}

/// The project column: right-aligned number and a blank.
pub open spec fn project_column(project: Option<u32>) -> Seq<u8> {
    match project {
        Some(p) => blanks(PROJECT_WIDTH - decimal(p as nat).len()) + decimal(p as nat)
            + seq![BLANK],
        None => seq![],
    }
}

/// The generation column: left-aligned number and a blank.
pub open spec fn generation_column(generation: Option<u64>) -> Seq<u8> {
    match generation {
        Some(g) => decimal(g as nat) + blanks(GENERATION_WIDTH - decimal(g as nat).len())
            + seq![BLANK],
        None => seq![],
    }
}

/// The row that `write_line` appends.
pub open spec fn line(
    flags: u32,
    path: Seq<u8>,
    long: bool,
    paths_only: bool,
    project: Option<u32>,
    generation: Option<u64>,
) -> Seq<u8> {
    if paths_only {
        path_line(path)
    } else {
        project_column(project) + generation_column(generation) + if long {
            long_line(flags, path)
        } else {
            short_line(flags, path)
        }
    }
}

/// Append `bytes` to `w`.
pub fn append(w: &mut Vec<u8>, bytes: &[u8])
    ensures
        final(w)@ == old(w)@ + bytes@,
{
    w.extend_from_slice(bytes);
    assert(w@ =~= old(w)@ + bytes@);
}

/// Append `n` blanks to `w`.
fn pad(w: &mut Vec<u8>, n: usize)
    ensures
        final(w)@ == old(w)@ + blanks(n as int),
{
    let mut i: usize = 0;
    assert(w@ =~= old(w)@ + blanks(0));
    while i < n
        invariant
            i <= n,
            w@ == old(w)@ + blanks(i as int),
        decreases n - i,
    {
        w.push(BLANK);
        i += 1;
        assert(w@ =~= old(w)@ + blanks(i as int));
    }
}

/// The decimal digits of `n`.
fn digits(n: u64) -> (d: Vec<u8>)
    ensures
        d@ == decimal(n as nat),
    decreases n,
{
    if n < 10 {
        let mut d: Vec<u8> = Vec::new();
        d.push(ZERO + n as u8);
        assert(d@ =~= decimal(n as nat));
        d
    } else {
        let mut d = digits(n / 10);
        d.push(ZERO + (n % 10) as u8);
        d
    }
}

/// Append a short row: 22-character attribute field, one blank, path, newline.
pub fn write_short(w: &mut Vec<u8>, fs_flags: u32, path: &[u8])
    ensures
        final(w)@ == old(w)@ + short_line(fs_flags, path@),
{
    let table = letters();
    let mut i: usize = 0;
    assert(w@ =~= old(w)@ + attr_field(fs_flags).take(0));
    while i < LETTER_COUNT
        invariant
            i <= LETTER_COUNT,
            table@ == crate::flags::letter_table(),
            w@ == old(w)@ + attr_field(fs_flags).take(i as int),
        decreases LETTER_COUNT - i,
    {
        if fs_flags & table[i].bit != 0 {
            w.push(table[i].letter as u8);
        } else {
            w.push(DASH);
        }
        i += 1;
        assert(w@ =~= old(w)@ + attr_field(fs_flags).take(i as int));
    }
    w.push(BLANK);
    append(w, path);
    w.push(NEWLINE);
    assert(w@ =~= old(w)@ + short_line(fs_flags, path@));
}

/// Append a long row: path padded to 28 characters, one blank, the long names
/// joined by `, ` (or `---`), newline.
pub fn write_long(w: &mut Vec<u8>, fs_flags: u32, path: &[u8])
    ensures
        final(w)@ == old(w)@ + long_line(fs_flags, path@),
{
    append(w, path);
    if path.len() < PATH_WIDTH {
        pad(w, PATH_WIDTH - path.len());
    }
    w.push(BLANK);
    let ghost head = w@;
    assert(head =~= old(w)@ + (path@ + blanks(PATH_WIDTH - path@.len()) + seq![BLANK]));

    let table = letters();
    let mut first = true;
    let mut i: usize = 0;
    assert(w@ =~= head + comma_joined(names_set(fs_flags, 0)));
    while i < LETTER_COUNT
        invariant
            i <= LETTER_COUNT,
            table@ == crate::flags::letter_table(),
            first == (names_set(fs_flags, i as int).len() == 0),
            w@ == head + comma_joined(names_set(fs_flags, i as int)),
        decreases LETTER_COUNT - i,
    {
        if fs_flags & table[i].bit != 0 {
            let ghost before = names_set(fs_flags, i as int);
            let ghost name = name_bytes(crate::flags::letter_table()[i as int]);
            assert(before.push(name).drop_last() =~= before);
            if !first {
                w.push(COMMA);
                w.push(BLANK);
            }
            append(w, table[i].long.as_bytes());
            first = false;
            assert(w@ =~= head + comma_joined(before.push(name)));
        }
        i += 1;
    }
    if first {
        w.push(DASH);
        w.push(DASH);
        w.push(DASH);
    }
    w.push(NEWLINE);
    assert(w@ =~= old(w)@ + long_line(fs_flags, path@));
}

/// Append a bare row: the path and a newline.
pub fn write_paths_only(w: &mut Vec<u8>, path: &[u8])
    ensures
        final(w)@ == old(w)@ + path_line(path@),
{
    append(w, path);
    w.push(NEWLINE);
    assert(w@ =~= old(w)@ + path_line(path@));
}

/// Append the project and generation columns, where they are given.
fn write_columns(w: &mut Vec<u8>, project: Option<u32>, generation: Option<u64>)
    ensures
        final(w)@ == old(w)@ + (project_column(project) + generation_column(generation)),
{
    if let Some(p) = project {
        let d = digits(p as u64);
        if d.len() < PROJECT_WIDTH {
            pad(w, PROJECT_WIDTH - d.len());
        }
        append(w, d.as_slice());
        w.push(BLANK);
    }
    assert(w@ =~= old(w)@ + project_column(project));
    let ghost head = w@;
    if let Some(g) = generation {
        let d = digits(g);
        append(w, d.as_slice());
        if d.len() < GENERATION_WIDTH {
            pad(w, GENERATION_WIDTH - d.len());
        }
        w.push(BLANK);
    }
    assert(w@ =~= head + generation_column(generation));
    assert(w@ =~= old(w)@ + (project_column(project) + generation_column(generation)));
}

/// Append one row in the format that `paths_only` and `long` select, with the
/// project and generation columns in front where they are given.
pub fn write_line(
    w: &mut Vec<u8>,
    flags: u32,
    path: &[u8],
    long: bool,
    paths_only: bool,
    project: Option<u32>,
    generation: Option<u64>,
)
    ensures
        final(w)@ == old(w)@ + line(flags, path@, long, paths_only, project, generation),
{
    if paths_only {
        write_paths_only(w, path);
        return;
    }
    write_columns(w, project, generation);
    let ghost columns = project_column(project) + generation_column(generation);
    let ghost row = if long {
        long_line(flags, path@)
    } else {
        short_line(flags, path@)
    };
    if long {
        write_long(w, flags, path);
    } else {
        write_short(w, flags, path);
    }
    assert(w@ == old(w)@ + columns + row);
    assert(old(w)@ + columns + row =~= old(w)@ + (columns + row));
}

/// The two sets of flags agree on every attribute that has a letter.
pub open spec fn same_letters(a: u32, b: u32) -> bool {
    forall|i: int|
        0 <= i < LETTER_COUNT ==> (a & (#[trigger] crate::flags::letter_table()[i]).bit != 0 <==> b
            & crate::flags::letter_table()[i].bit != 0)
}

/// The attribute field has one column for each letter, and two sets of flags
/// have the same field exactly if they agree on every attribute that `lsattr`
/// knows: the field can be read back.
pub proof fn law_attr_field_reads_back(a: u32, b: u32)
    ensures
        attr_field(a).len() == LETTER_COUNT,
        attr_field(a) == attr_field(b) <==> same_letters(a, b),
{
    let table = crate::flags::letter_table();
    assert forall|i: int| 0 <= i < LETTER_COUNT implies (#[trigger] table[i]).letter as u8
        != DASH by {}
    if attr_field(a) == attr_field(b) {
        assert forall|i: int| 0 <= i < LETTER_COUNT implies (a & (#[trigger] table[i]).bit != 0
            <==> b & table[i].bit != 0) by {
            assert(attr_field(a)[i] == attr_field(b)[i]);
        }
    }
    if same_letters(a, b) {
        assert forall|i: int| 0 <= i < LETTER_COUNT implies attr_field(a)[i] == attr_field(
            b,
        )[i] by {
            assert(a & table[i].bit != 0 <==> b & table[i].bit != 0);
        }
        assert(attr_field(a) =~= attr_field(b));
    }
}

proof fn lemma_same_names(a: u32, b: u32, n: int)
    requires
        same_letters(a, b),
        n <= LETTER_COUNT,
    ensures
        names_set(a, n) == names_set(b, n),
    decreases n,
{
    if n > 0 {
        lemma_same_names(a, b, n - 1);
        let bit = crate::flags::letter_table()[n - 1].bit;
        assert(a & bit != 0 <==> b & bit != 0);
    }
}

/// A row shows of the flags only the attributes that have a letter, and a bare
/// row nothing at all.
pub proof fn law_rows_show_letters_only(
    a: u32,
    b: u32,
    path: Seq<u8>,
    long: bool,
    paths_only: bool,
    project: Option<u32>,
    generation: Option<u64>,
)
    requires
        paths_only || same_letters(a, b),
    ensures
        line(a, path, long, paths_only, project, generation) == line(
            b,
            path,
            long,
            paths_only,
            project,
            generation,
        ),
{
    if !paths_only {
        law_attr_field_reads_back(a, b);
        lemma_same_names(a, b, LETTER_COUNT as int);
        assert(attr_field(a) == attr_field(b));
    }
}

/// The number that a string of decimal digits denotes.
pub open spec fn number(digits: Seq<u8>) -> int
    decreases digits.len(),
{
    if digits.len() == 0 {
        0
    } else {
        10 * number(digits.drop_last()) + (digits.last() - ZERO)
    }
}

/// The digits of a number denote it, and none but 0 starts with a zero.
pub proof fn law_decimal_reads_back(n: nat)
    ensures
        number(decimal(n)) == n,
        decimal(n).len() >= 1,
        forall|i: int| 0 <= i < decimal(n).len() ==> ZERO <= #[trigger] decimal(n)[i] <= ZERO + 9,
        n > 0 ==> decimal(n)[0] != ZERO,
    decreases n,
{
    if n < 10 {
        let d = seq![(ZERO + n) as u8];
        assert(d.drop_last() =~= seq![]);
        assert(number(d.drop_last()) == 0);
    } else {
        law_decimal_reads_back(n / 10);
        let d = decimal(n / 10).push((ZERO + n % 10) as u8);
        assert(d.drop_last() =~= decimal(n / 10));
        assert(d[0] == decimal(n / 10)[0]);
    }
}

/// A number below a power of ten has as many digits at most.
proof fn lemma_digits(n: nat, k: nat)
    requires
        k >= 1,
        n < vstd::arithmetic::power::pow(10, k),
    ensures
        decimal(n).len() <= k,
    decreases k,
{
    if n >= 10 {
        vstd::arithmetic::power::lemma_pow1(10);
        if k > 1 {
            assert(vstd::arithmetic::power::pow(10, k) == 10 * vstd::arithmetic::power::pow(
                10,
                (k - 1) as nat,
            )) by {
                reveal(vstd::arithmetic::power::pow);
            }
            lemma_digits(n / 10, (k - 1) as nat);
        }
    }
}

/// A column is at least its width and a blank. It is exactly that for a project
/// number of up to five digits, and for every 32-bit generation.
pub proof fn law_column_widths(project: u32, generation: u64)
    ensures
        project_column(Some(project)).len() >= PROJECT_WIDTH + 1,
        project < 100000 ==> project_column(Some(project)).len() == PROJECT_WIDTH + 1,
        generation_column(Some(generation)).len() >= GENERATION_WIDTH + 1,
        generation <= u32::MAX ==> generation_column(Some(generation)).len() == GENERATION_WIDTH
            + 1,
{
    if project < 100000 {
        assert(vstd::arithmetic::power::pow(10, 5) == 100000) by {
            reveal_with_fuel(vstd::arithmetic::power::pow, 6);
        }
        lemma_digits(project as nat, 5);
    }
    if generation <= u32::MAX {
        assert(vstd::arithmetic::power::pow(10, 10) == 10000000000) by {
            reveal_with_fuel(vstd::arithmetic::power::pow, 11);
        }
        lemma_digits(generation as nat, 10);
    }
}

/// Every row ends in a newline, and a bare row is nothing but the path before
/// it, whatever columns are asked for.
pub proof fn law_rows_end_in_newline(
    flags: u32,
    path: Seq<u8>,
    long: bool,
    paths_only: bool,
    project: Option<u32>,
    generation: Option<u64>,
)
    ensures
        line(flags, path, long, paths_only, project, generation).len() > 0,
        line(flags, path, long, paths_only, project, generation).last() == NEWLINE,
        paths_only ==> line(flags, path, long, paths_only, project, generation).drop_last() == path,
{
    if paths_only {
        assert(path_line(path).drop_last() =~= path);
    }
}

/// The byte `letter` where `flags` has `bit`, else a dash.
pub open spec fn shown(flags: u32, bit: u32, letter: char) -> u8 {
    if flags & bit != 0 {
        letter as u8
    } else {
        0x2d
    }
}

/// A short row, byte for byte: in each of its 22 columns the letter of one
/// attribute, by the kernel's number of it, or a dash; then a blank, the path
/// and a newline.
pub proof fn law_short_row_columns(flags: u32, path: Seq<u8>)
    ensures
        ({
            let row = short_line(flags, path);
            &&& row.len() == 22 + 1 + path.len() + 1
            &&& row[0] == shown(flags, 0x1, 's')
            &&& row[1] == shown(flags, 0x2, 'u')
            &&& row[2] == shown(flags, 0x8, 'S')
            &&& row[3] == shown(flags, 0x10000, 'D')
            &&& row[4] == shown(flags, 0x10, 'i')
            &&& row[5] == shown(flags, 0x20, 'a')
            &&& row[6] == shown(flags, 0x40, 'd')
            &&& row[7] == shown(flags, 0x80, 'A')
            &&& row[8] == shown(flags, 0x4, 'c')
            &&& row[9] == shown(flags, 0x800, 'E')
            &&& row[10] == shown(flags, 0x4000, 'j')
            &&& row[11] == shown(flags, 0x1000, 'I')
            &&& row[12] == shown(flags, 0x8000, 't')
            &&& row[13] == shown(flags, 0x20000, 'T')
            &&& row[14] == shown(flags, 0x80000, 'e')
            &&& row[15] == shown(flags, 0x800000, 'C')
            &&& row[16] == shown(flags, 0x2000000, 'x')
            &&& row[17] == shown(flags, 0x40000000, 'F')
            &&& row[18] == shown(flags, 0x10000000, 'N')
            &&& row[19] == shown(flags, 0x20000000, 'P')
            &&& row[20] == shown(flags, 0x100000, 'V')
            &&& row[21] == shown(flags, 0x400, 'm')
            &&& row[22] == 0x20
            &&& row.subrange(23, row.len() - 1) == path
            &&& row.last() == 0xa
        }),
{
    let row = short_line(flags, path);
    assert(row.subrange(23, row.len() - 1) =~= path);
}

/// The bytes of a name in a long row.
pub open spec fn name_of(name: Seq<char>) -> Seq<u8> {
    vstd::utf8::encode_utf8(name)
}

/// `name`, where `flags` has `bit`.
pub open spec fn name_if(flags: u32, bit: u32, name: Seq<char>) -> Seq<Seq<u8>> {
    if flags & bit != 0 {
        seq![name_of(name)]
    } else {
        seq![]
    }
}

/// The next name of a long row.
proof fn lemma_next_name(flags: u32, n: int, bit: u32, name: Seq<char>)
    requires
        0 < n <= LETTER_COUNT,
        crate::flags::letter_table()[n - 1].bit == bit,
        crate::flags::letter_table()[n - 1].long@ == name,
    ensures
        names_set(flags, n) == names_set(flags, n - 1) + name_if(flags, bit, name),
{
    assert(names_set(flags, n) =~= names_set(flags, n - 1) + name_if(flags, bit, name));
}

/// The names of a long row are those of the attributes that are set, by the
/// kernel's numbers of them, in the order of the columns.
pub proof fn law_long_row_names(flags: u32)
    ensures
        names_set(flags, 22) == name_if(flags, 0x1, "Secure_Deletion"@)
            + name_if(flags, 0x2, "Undelete"@)
            + name_if(flags, 0x8, "Synchronous_Updates"@)
            + name_if(flags, 0x10000, "Synchronous_Directory_Updates"@)
            + name_if(flags, 0x10, "Immutable"@)
            + name_if(flags, 0x20, "Append_Only"@)
            + name_if(flags, 0x40, "No_Dump"@)
            + name_if(flags, 0x80, "No_Atime"@)
            + name_if(flags, 0x4, "Compression_Requested"@)
            + name_if(flags, 0x800, "Encrypted"@)
            + name_if(flags, 0x4000, "Journaled_Data"@)
            + name_if(flags, 0x1000, "Indexed_directory"@)
            + name_if(flags, 0x8000, "No_Tailmerging"@)
            + name_if(flags, 0x20000, "Top_of_Directory_Hierarchies"@)
            + name_if(flags, 0x80000, "Extents"@)
            + name_if(flags, 0x800000, "No_COW"@)
            + name_if(flags, 0x2000000, "DAX"@)
            + name_if(flags, 0x40000000, "Casefold"@)
            + name_if(flags, 0x10000000, "Inline_Data"@)
            + name_if(flags, 0x20000000, "Project_Hierarchy"@)
            + name_if(flags, 0x100000, "Verity"@)
            + name_if(flags, 0x400, "Dont_Compress"@),
{
    lemma_next_name(flags, 1, 0x1, "Secure_Deletion"@);
    lemma_next_name(flags, 2, 0x2, "Undelete"@);
    lemma_next_name(flags, 3, 0x8, "Synchronous_Updates"@);
    lemma_next_name(flags, 4, 0x10000, "Synchronous_Directory_Updates"@);
    lemma_next_name(flags, 5, 0x10, "Immutable"@);
    lemma_next_name(flags, 6, 0x20, "Append_Only"@);
    lemma_next_name(flags, 7, 0x40, "No_Dump"@);
    lemma_next_name(flags, 8, 0x80, "No_Atime"@);
    lemma_next_name(flags, 9, 0x4, "Compression_Requested"@);
    lemma_next_name(flags, 10, 0x800, "Encrypted"@);
    lemma_next_name(flags, 11, 0x4000, "Journaled_Data"@);
    lemma_next_name(flags, 12, 0x1000, "Indexed_directory"@);
    lemma_next_name(flags, 13, 0x8000, "No_Tailmerging"@);
    lemma_next_name(flags, 14, 0x20000, "Top_of_Directory_Hierarchies"@);
    lemma_next_name(flags, 15, 0x80000, "Extents"@);
    lemma_next_name(flags, 16, 0x800000, "No_COW"@);
    lemma_next_name(flags, 17, 0x2000000, "DAX"@);
    lemma_next_name(flags, 18, 0x40000000, "Casefold"@);
    lemma_next_name(flags, 19, 0x10000000, "Inline_Data"@);
    lemma_next_name(flags, 20, 0x20000000, "Project_Hierarchy"@);
    lemma_next_name(flags, 21, 0x100000, "Verity"@);
    lemma_next_name(flags, 22, 0x400, "Dont_Compress"@);
    let first = name_if(flags, 0x1, "Secure_Deletion"@);
    assert(names_set(flags, 0) + first =~= first);
}

/// Names are joined by a comma and a blank: joining two lists of names joins
/// what the lists join to. A single name is joined to itself.
pub proof fn law_names_are_joined_by_commas(a: Seq<Seq<u8>>, b: Seq<Seq<u8>>, name: Seq<u8>)
    requires
        a.len() > 0,
        b.len() > 0,
    ensures
        comma_joined(seq![name]) == name,
        comma_joined(a + b) == comma_joined(a) + seq![0x2cu8, 0x20u8] + comma_joined(b),
    decreases b.len(),
{
    if b.len() == 1 {
        assert((a + b).drop_last() =~= a);
    } else {
        assert((a + b).drop_last() =~= a + b.drop_last());
        law_names_are_joined_by_commas(a, b.drop_last(), name);
        assert(comma_joined(a + b) =~= comma_joined(a) + seq![0x2cu8, 0x20u8] + comma_joined(b));
    }
}

/// A long row starts with the path, filled up with blanks to 28 bytes; then
/// come a blank, the joined names, or three dashes if there are none, and a
/// newline.
pub proof fn law_long_row_fields(flags: u32, path: Seq<u8>)
    ensures
        ({
            let row = long_line(flags, path);
            let n: int = if path.len() < 28 {
                28
            } else {
                path.len() as int
            };
            let list = names_set(flags, 22);
            let tail = row.subrange(n + 1, row.len() - 1);
            &&& row.len() > n + 1
            &&& row.take(path.len() as int) == path
            &&& forall|i: int| path.len() <= i <= n ==> #[trigger] row[i] == 0x20
            &&& list.len() == 0 ==> tail == seq![0x2du8, 0x2du8, 0x2du8]
            &&& list.len() > 0 ==> tail == comma_joined(list)
            &&& row.last() == 0xa
        }),
{
    let row = long_line(flags, path);
    let n: int = if path.len() < 28 {
        28
    } else {
        path.len() as int
    };
    assert(row.take(path.len() as int) =~= path);
    assert(row.subrange(n + 1, row.len() - 1) =~= long_names(flags));
}

/// The columns before a row: first the project number, blanks before it up to
/// five bytes, and a blank; then the generation number, blanks after it up to
/// ten bytes, and a blank; each only where it is given. A bare row has neither.
pub proof fn law_columns(
    flags: u32,
    path: Seq<u8>,
    long: bool,
    project: Option<u32>,
    generation: Option<u64>,
)
    ensures
        line(flags, path, long, true, project, generation) == path.push(0xa),
        line(flags, path, false, false, None, None) == short_line(flags, path),
        line(flags, path, true, false, None, None) == long_line(flags, path),
        line(flags, path, long, false, project, generation) == line(
            flags,
            seq![],
            long,
            false,
            project,
            generation,
        ).take((project_column(project) + generation_column(generation)).len() as int) + line(
            flags,
            path,
            long,
            false,
            None,
            None,
        ),
        project matches Some(p) ==> {
            let c = project_column(project);
            let d = decimal(p as nat);
            let n = c.len() - 1 - d.len();
            &&& n == if d.len() < 5 {
                5 - d.len()
            } else {
                0
            }
            &&& forall|i: int| 0 <= i < n ==> #[trigger] c[i] == 0x20
            &&& number(c.subrange(n, n + d.len())) == p
            &&& c.last() == 0x20
        },
        generation matches Some(g) ==> {
            let c = generation_column(generation);
            let d = decimal(g as nat);
            &&& c.len() == 1 + if d.len() < 10 {
                10
            } else {
                d.len() as int
            }
            &&& number(c.take(d.len() as int)) == g
            &&& forall|i: int| d.len() <= i < c.len() ==> #[trigger] c[i] == 0x20
        },
        line(flags, path, long, false, project, generation).take(
            (project_column(project) + generation_column(generation)).len() as int,
        ) == project_column(project) + generation_column(generation),
        ZERO == 0x30,
{
    let columns = project_column(project) + generation_column(generation);
    let row = line(flags, path, long, false, None, None);
    assert(line(flags, path, long, true, project, generation) =~= path.push(0xa));
    assert(project_column(None) + generation_column(None) =~= seq![]);
    assert(line(flags, path, false, false, None, None) =~= short_line(flags, path));
    assert(line(flags, path, true, false, None, None) =~= long_line(flags, path));
    assert(line(flags, seq![], long, false, project, generation).take(columns.len() as int)
        =~= columns);
    assert(line(flags, path, long, false, project, generation) =~= columns + row);
    assert(line(flags, path, long, false, project, generation).take(columns.len() as int)
        =~= columns);
    if let Some(p) = project {
        let c = project_column(project);
        let d = decimal(p as nat);
        let n = c.len() - 1 - d.len();
        law_decimal_reads_back(p as nat);
        assert(c.subrange(n, n + d.len()) =~= d);
    }
    if let Some(g) = generation {
        let c = generation_column(generation);
        let d = decimal(g as nat);
        law_decimal_reads_back(g as nat);
        assert(c.take(d.len() as int) =~= d);
    }
}

} // verus!
