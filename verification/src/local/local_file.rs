//! A downloaded file, named after the last component of its path.
use crate::api::NxmUrl;
use crate::path::{file_name, spec_file_name};
use vstd::prelude::*;

verus! {

/// A downloaded file: its name, game, mod and file id.
pub struct LocalFile {
    pub file_name: String,
    pub game: String,
    pub mod_id: u32,
    pub file_id: u64,
}

impl LocalFile {
    /// The record of the file at `path`, downloaded through the link `nxm`;
    /// the path must end in a file name.
    pub fn new(nxm: &NxmUrl, path: &str) -> (r: Self)
        requires
            spec_file_name(path@) is Some,
        ensures
            r.file_name@ == spec_file_name(path@)->0,
            r.game == nxm.domain_name,
            r.mod_id == nxm.mod_id,
            r.file_id == nxm.file_id,
    {
        let name = match file_name(path) {
            Some(n) => n,
            None => String::new(),
        };
        LocalFile { file_name: name, game: nxm.domain_name.clone(), mod_id: nxm.mod_id, file_id: nxm.file_id }
    }
}

} // verus!
