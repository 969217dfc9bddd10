//! The status codes of libarchive and what the extractor does on each.
use vstd::prelude::*;

verus! {

pub const ARCHIVE_EOF: i32 = 1;
pub const ARCHIVE_OK: i32 = 0;
pub const ARCHIVE_RETRY: i32 = -10;
pub const ARCHIVE_WARN: i32 = -20;
pub const ARCHIVE_FAILED: i32 = -25;
pub const ARCHIVE_FATAL: i32 = -30;

/// The file type bits of a directory.
pub const S_IFDIR: u32 = 0o040000;
/// The file type bits of a regular file.
pub const S_IFREG: u32 = 0o100000;

/// An error reported by libarchive, with its message.
#[derive(Debug)]
pub enum ArchiveError {
    Failed(String),
    Fatal(String),
    Unhandled(String),
    Warn(String),
}

impl ArchiveError {
    /// The error that a status code stands for.
    pub open spec fn spec_from_code(code: i32, msg: String) -> ArchiveError {
        if code == ARCHIVE_WARN {
            ArchiveError::Warn(msg)
        } else if code == ARCHIVE_FAILED {
            ArchiveError::Failed(msg)
        } else if code == ARCHIVE_FATAL {
            ArchiveError::Fatal(msg)
        } else {
            ArchiveError::Unhandled(msg)
        }
    }

    /// The error that libarchive's status `code` stands for, with `err_msg`.
    pub fn from_err_code(code: i32, err_msg: String) -> (r: Self)
        ensures
            r == Self::spec_from_code(code, err_msg),
    {
        match code {
            ARCHIVE_WARN => ArchiveError::Warn(err_msg),
            ARCHIVE_FAILED => ArchiveError::Failed(err_msg),
            ARCHIVE_FATAL => ArchiveError::Fatal(err_msg),
            _ => ArchiveError::Unhandled(err_msg),
        }
    }

    /// The message of the error.
    pub open spec fn spec_message(self) -> String {
        match self {
            ArchiveError::Failed(m) => m,
            ArchiveError::Fatal(m) => m,
            ArchiveError::Unhandled(m) => m,
            ArchiveError::Warn(m) => m,
        }
    }

    /// The message of the error.
    pub fn message(&self) -> (r: &String)
        ensures
            *r == self.spec_message(),
    {
        match self {
            ArchiveError::Failed(m) => m,
            ArchiveError::Fatal(m) => m,
            ArchiveError::Unhandled(m) => m,
            ArchiveError::Warn(m) => m,
        }
    }
}

/// What the extractor does after reading a block of an entry.
#[derive(PartialEq, Eq, Structural, Debug, Clone, Copy)]
pub enum BlockAction {
    /// Write the block's data, if any; `warn` says whether to log libarchive's warning.
    Write { warn: bool },
    /// The entry is complete.
    Finish,
    /// Stop with the error that the status stands for.
    Fail,
}

/// The action for a block read with status `status`.
pub open spec fn spec_block_action(status: i32) -> BlockAction {
    if status == ARCHIVE_OK {
        BlockAction::Write { warn: false }
    } else if status == ARCHIVE_WARN {
        BlockAction::Write { warn: true }
    } else if status == ARCHIVE_EOF {
        BlockAction::Finish
    } else {
        BlockAction::Fail
    }
}

/// What to do with a block of data that libarchive read with `status`: data
/// comes with `OK` and `WARN`, `EOF` ends the entry, and anything else fails.
pub fn block_action(status: i32) -> (r: BlockAction)
    ensures
        r == spec_block_action(status),
{
    match status {
        ARCHIVE_OK => BlockAction::Write { warn: false },
        ARCHIVE_WARN => BlockAction::Write { warn: true },
        ARCHIVE_EOF => BlockAction::Finish,
        _ => BlockAction::Fail,
    }
}

/// Whether the data of a read is kept: only a read with status `OK` or `WARN`
/// that handed back data (some reads of RAR files hand back none).
pub fn keeps_block(status: i32, has_data: bool) -> (r: bool)
    ensures
        r == ((status == ARCHIVE_OK || status == ARCHIVE_WARN) && has_data),
{
    (status == ARCHIVE_OK || status == ARCHIVE_WARN) && has_data
}

/// Whether an entry's file type is a directory; regular files and every other
/// type are extracted as files.
pub fn is_dir_filetype(filetype: u32) -> (r: bool)
    ensures
        r == (filetype == S_IFDIR),
{
    filetype == S_IFDIR
}

} // verus!
