//! Why an installation failed.
use crate::extract::libarchive::ArchiveError;
use vstd::prelude::*;

verus! {

/// Why an installation failed.
pub enum InstallError {
    AlreadyExists,
    ArchiveDeleted,
    ArchiveError { source: ArchiveError },
    InProgress,
    IO { message: String },
}

/// The fixed message of an error that carries no message of its own.
pub open spec fn install_error_text(e: InstallError) -> Option<Seq<char>> {
    match e {
        InstallError::AlreadyExists => Some("Target directory already exists."@),
        InstallError::ArchiveDeleted => Some("Archive no longer exists."@),
        InstallError::InProgress => Some("Extracting to target directory is already in progress."@),
        _ => None,
    }
}

impl InstallError {
    /// The message shown for the error: a fixed text, or the message of its source.
    pub fn message(&self) -> (r: String)
        ensures
            match install_error_text(*self) {
                Some(t) => r@ == t,
                None => match self {
                    InstallError::ArchiveError { source } => r@ == source.spec_message()@,
                    InstallError::IO { message } => r@ == message@,
                    _ => true,
                },
            },
    {
        match self {
            InstallError::AlreadyExists => "Target directory already exists.".to_owned(),
            InstallError::ArchiveDeleted => "Archive no longer exists.".to_owned(),
            InstallError::ArchiveError { source } => source.message().clone(),
            InstallError::InProgress => "Extracting to target directory is already in progress.".to_owned(),
            InstallError::IO { message } => message.clone(),
        }
    }
}

} // verus!
