//! Failures, as the scan logic tells them apart.

use vstd::prelude::*;

verus! {

// Linux errno numbers that are the same on every architecture.
pub const EPERM: i32 = 1;

pub const ENOENT: i32 = 2;

pub const ENXIO: i32 = 6;

pub const EINVAL: i32 = 22;

pub const ENOTTY: i32 = 25;

/// A kernel reply that does not have the shape it should have.
#[derive(Clone, Copy, PartialEq, Eq, Debug, Structural)]
pub enum DataError {
    ShortContainer,
    BufferLimit,
    CountOverflow,
    TableOutsideBuffer,
    OffsetOutsideBuffer,
    OffsetInTable,
    Unterminated,
    ShortItemHeader,
    ItemOutsideBuffer,
}

/// The text that describes a malformed reply.
pub open spec fn data_error_text(e: DataError) -> Seq<char> {
    match e {
        DataError::ShortContainer => "short INO_PATHS data container"@,
        DataError::BufferLimit => "INO_PATHS result exceeds maximum path buffer"@,
        DataError::CountOverflow => "INO_PATHS element count overflow"@,
        DataError::TableOutsideBuffer => "INO_PATHS element offsets exceed buffer"@,
        DataError::OffsetOutsideBuffer => "INO_PATHS string offset exceeds buffer"@,
        DataError::OffsetInTable => "INO_PATHS string offset overlaps offset table"@,
        DataError::Unterminated => "INO_PATHS string is not NUL terminated"@,
        DataError::ShortItemHeader => "short TREE_SEARCH_V2 item header"@,
        DataError::ItemOutsideBuffer => "TREE_SEARCH_V2 item exceeds buffer"@,
    }
}

impl DataError {
    /// The text that describes this error.
    pub fn message(self) -> (text: &'static str)
        ensures
            text@ == data_error_text(self),
    {
        match self {
            DataError::ShortContainer => "short INO_PATHS data container",
            DataError::BufferLimit => "INO_PATHS result exceeds maximum path buffer",
            DataError::CountOverflow => "INO_PATHS element count overflow",
            DataError::TableOutsideBuffer => "INO_PATHS element offsets exceed buffer",
            DataError::OffsetOutsideBuffer => "INO_PATHS string offset exceeds buffer",
            DataError::OffsetInTable => "INO_PATHS string offset overlaps offset table",
            DataError::Unterminated => "INO_PATHS string is not NUL terminated",
            DataError::ShortItemHeader => "short TREE_SEARCH_V2 item header",
            DataError::ItemOutsideBuffer => "TREE_SEARCH_V2 item exceeds buffer",
        }
    }
}

/// The text of a malformed reply names the request that was replied to, and
/// then what is wrong with the reply.
pub proof fn law_malformed_replies_in_words()
    ensures
        data_error_text(DataError::ShortContainer) == "short INO_PATHS"@ + " data container"@,
        data_error_text(DataError::BufferLimit) == "INO_PATHS"@
            + " result exceeds maximum path buffer"@,
        data_error_text(DataError::CountOverflow) == "INO_PATHS"@ + " element count overflow"@,
        data_error_text(DataError::TableOutsideBuffer) == "INO_PATHS"@
            + " element offsets exceed buffer"@,
        data_error_text(DataError::OffsetOutsideBuffer) == "INO_PATHS"@
            + " string offset exceeds buffer"@,
        data_error_text(DataError::OffsetInTable) == "INO_PATHS"@
            + " string offset overlaps offset table"@,
        data_error_text(DataError::Unterminated) == "INO_PATHS"@ + " string is not NUL terminated"@,
        data_error_text(DataError::ShortItemHeader) == "short TREE_SEARCH_V2"@ + " item header"@,
        data_error_text(DataError::ItemOutsideBuffer) == "TREE_SEARCH_V2"@
            + " item exceeds buffer"@,
{
    reveal_strlit("short INO_PATHS");
    reveal_strlit(" data container");
    reveal_strlit("short INO_PATHS data container");
    reveal_strlit("INO_PATHS");
    reveal_strlit(" result exceeds maximum path buffer");
    reveal_strlit("INO_PATHS result exceeds maximum path buffer");
    reveal_strlit(" element count overflow");
    reveal_strlit("INO_PATHS element count overflow");
    reveal_strlit(" element offsets exceed buffer");
    reveal_strlit("INO_PATHS element offsets exceed buffer");
    reveal_strlit(" string offset exceeds buffer");
    reveal_strlit("INO_PATHS string offset exceeds buffer");
    reveal_strlit(" string offset overlaps offset table");
    reveal_strlit("INO_PATHS string offset overlaps offset table");
    reveal_strlit(" string is not NUL terminated");
    reveal_strlit("INO_PATHS string is not NUL terminated");
    reveal_strlit("short TREE_SEARCH_V2");
    reveal_strlit(" item header");
    reveal_strlit("short TREE_SEARCH_V2 item header");
    reveal_strlit("TREE_SEARCH_V2");
    reveal_strlit(" item exceeds buffer");
    reveal_strlit("TREE_SEARCH_V2 item exceeds buffer");
    assert(data_error_text(DataError::ShortContainer) =~= "short INO_PATHS"@ + " data container"@);
    assert(data_error_text(DataError::BufferLimit) =~= "INO_PATHS"@
        + " result exceeds maximum path buffer"@);
    assert(data_error_text(DataError::CountOverflow) =~= "INO_PATHS"@ + " element count overflow"@);
    assert(data_error_text(DataError::TableOutsideBuffer) =~= "INO_PATHS"@
        + " element offsets exceed buffer"@);
    assert(data_error_text(DataError::OffsetOutsideBuffer) =~= "INO_PATHS"@
        + " string offset exceeds buffer"@);
    assert(data_error_text(DataError::OffsetInTable) =~= "INO_PATHS"@
        + " string offset overlaps offset table"@);
    assert(data_error_text(DataError::Unterminated) =~= "INO_PATHS"@
        + " string is not NUL terminated"@);
    assert(data_error_text(DataError::ShortItemHeader) =~= "short TREE_SEARCH_V2"@
        + " item header"@);
    assert(data_error_text(DataError::ItemOutsideBuffer) =~= "TREE_SEARCH_V2"@
        + " item exceeds buffer"@);
}

/// Why a step failed: the reader of the output went away, a system call
/// failed with an errno, the kernel's reply was malformed, or an error without
/// any of these.
#[derive(Clone, Copy, PartialEq, Eq, Debug, Structural)]
pub enum Error {
    BrokenPipe,
    Os(i32),
    Data(DataError),
    Other,
}

/// True for a closed-pipe write error: a normal pipeline teardown and no scan
/// failure.
pub fn is_broken_pipe(e: &Error) -> (broken: bool)
    ensures
        broken == (*e == Error::BrokenPipe),
{
    match *e {
        Error::BrokenPipe => true,
        _ => false,
    }
}

/// The error of a malformed kernel reply.
pub fn invalid_data(cause: DataError) -> (e: Error)
    ensures
        e == Error::Data(cause),
{
    Error::Data(cause)
}

/// Errors after which a tree search gives way to the per-file walk: no
/// privilege, no btrfs, or no subvolume root.
pub open spec fn recoverable(e: Error) -> bool {
    e == Error::Os(EPERM) || e == Error::Os(ENOTTY) || e == Error::Os(EINVAL)
}

/// Whether `e` should make a tree search fall back to the per-file walk.
pub fn is_recoverable(e: &Error) -> (r: bool)
    ensures
        r == recoverable(*e),
{
    match *e {
        Error::Os(n) => n == EPERM || n == ENOTTY || n == EINVAL,
        _ => false,
    }
}

/// A search gives way to the walk after the errno numbers 1 (no privilege), 22
/// (no subvolume root) and 25 (no btrfs), and after nothing else.
pub proof fn law_recoverable_errors(n: i32, d: DataError)
    ensures
        recoverable(Error::Os(n)) <==> n == 1 || n == 22 || n == 25,
        !recoverable(Error::BrokenPipe),
        !recoverable(Error::Data(d)),
        !recoverable(Error::Other),
{
}

/// How one write to the output went.
#[derive(Clone, Copy, PartialEq, Eq, Debug, Structural)]
pub enum WriteResult {
    Done,
    BrokenPipe,
    Failed,
}

} // verus!
