//! A downloaded file paired with the details that the API gives of it.
use super::local_file::LocalFile;
use crate::api::{FileDetails, Md5Results};
use std::cmp::Ordering;
use vstd::prelude::*;

verus! {

/// A downloaded file paired with its details from a file list or from an md5 lookup.
pub struct FileData {
    pub file_id: u64,
    pub game: String,
    pub mod_id: u32,
    pub file_name: String,
    pub local_file: LocalFile,
    pub file_details: Option<FileDetails>,
    pub md5results: Option<Md5Results>,
}

/// The upload time of a file: from its details when present, else from the md5 lookup.
pub open spec fn spec_uploaded_timestamp(
    file_details: Option<FileDetails>,
    md5results: Option<Md5Results>,
) -> Option<u64> {
    match file_details {
        Some(fd) => Some(fd.uploaded_timestamp),
        None => match md5results {
            Some(res) => Some(res.file_details.uploaded_timestamp),
            None => None,
        },
    }
}

/// The order of optional times: an unknown time comes first.
pub open spec fn option_less(a: Option<u64>, b: Option<u64>) -> bool {
    match (a, b) {
        (None, Some(_)) => true,
        (Some(x), Some(y)) => x < y,
        _ => false,
    }
}

/// The comparison that orders optional times.
pub open spec fn option_order(a: Option<u64>, b: Option<u64>) -> Ordering {
    if option_less(a, b) {
        Ordering::Less
    } else if a == b {
        Ordering::Equal
    } else {
        Ordering::Greater
    }
}

impl FileData {
    /// The upload time of the file, if known.
    pub open spec fn spec_timestamp(self) -> Option<u64> {
        spec_uploaded_timestamp(self.file_details, self.md5results)
    }

    /// Pairs `local_file` with what is known of it; id, game, mod and name come from the file.
    pub fn new(
        local_file: LocalFile,
        file_details: Option<FileDetails>,
        md5results: Option<Md5Results>,
    ) -> (r: Self)
        ensures
            r.file_id == local_file.file_id,
            r.game == local_file.game,
            r.mod_id == local_file.mod_id,
            r.file_name == local_file.file_name,
            r.local_file == local_file,
            r.file_details == file_details,
            r.md5results == md5results,
    {
        FileData {
            file_id: local_file.file_id,
            game: local_file.game.clone(),
            mod_id: local_file.mod_id,
            file_name: local_file.file_name.clone(),
            local_file,
            file_details,
            md5results,
        }
    }

    /// The upload time: from the file details, else from the md5 lookup, else none.
    pub fn uploaded_timestamp(&self) -> (r: Option<u64>)
        ensures
            r == self.spec_timestamp(),
    {
        if let Some(fd) = &self.file_details {
            return Some(fd.uploaded_timestamp);
        } else if let Some(res) = &self.md5results {
            return Some(res.file_details.uploaded_timestamp);
        }
        None
    }

    /// Orders two files by upload time; a file of unknown time comes first.
    pub fn compare(&self, other: &Self) -> (r: Ordering)
        ensures
            r == option_order(self.spec_timestamp(), other.spec_timestamp()),
    {
        let a = self.uploaded_timestamp();
        let b = other.uploaded_timestamp();
        match (a, b) {
            (None, None) => Ordering::Equal,
            (None, Some(_)) => Ordering::Less,
            (Some(_), None) => Ordering::Greater,
            (Some(x), Some(y)) => {
                if x < y {
                    Ordering::Less
                } else if x == y {
                    Ordering::Equal
                } else {
                    Ordering::Greater
                }
            },
        }
    }
}

impl Clone for FileData {
    fn clone(&self) -> (r: Self)
        ensures
            r == *self,
    {
        FileData {
            file_id: self.file_id,
            game: self.game.clone(),
            mod_id: self.mod_id,
            file_name: self.file_name.clone(),
            local_file: self.local_file.clone(),
            file_details: match &self.file_details {
                Some(fd) => Some(fd.clone()),
                None => None,
            },
            md5results: match &self.md5results {
                Some(m) => Some(m.clone()),
                None => None,
            },
        }
    }
}

impl PartialEq for FileData {
    fn eq(&self, other: &Self) -> (r: bool) {
        self.file_id == other.file_id
    }
}

impl vstd::std_specs::cmp::PartialEqSpecImpl for FileData {
    open spec fn obeys_eq_spec() -> bool {
        true
    }

    open spec fn eq_spec(&self, other: &Self) -> bool {
        self.file_id == other.file_id
    }
}

/// The order of files by upload time is a total order on times: exactly one of
/// less, equal or greater holds, swapping the files swaps less and greater, and
/// less is transitive.
pub proof fn lemma_upload_order_total(a: Option<u64>, b: Option<u64>, c: Option<u64>)
    ensures
        (option_order(a, b) == Ordering::Less) == (option_order(b, a) == Ordering::Greater),
        (option_order(a, b) == Ordering::Equal) == (a == b),
        option_less(a, b) && option_less(b, c) ==> option_less(a, c),
        !option_less(a, a),
{
}

} // verus!
