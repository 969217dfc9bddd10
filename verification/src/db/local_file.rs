//! A downloaded file of the per-game layout.
use super::path_type::{download_dir, spec_download_dir};
use crate::api::NxmUrl;
use crate::path::{path_join, spec_push};
use vstd::prelude::*;

verus! {

/// A downloaded file: its game, name, mod and file id.
pub struct LocalFile {
    pub game: String,
    pub file_name: String,
    pub mod_id: u32,
    pub file_id: u64,
}

impl LocalFile {
    /// The record of `file_name`, downloaded through the link `nxm`.
    pub fn new(nxm: &NxmUrl, file_name: String) -> (r: Self)
        ensures
            r.game == nxm.domain_name,
            r.file_name == file_name,
            r.mod_id == nxm.mod_id,
            r.file_id == nxm.file_id,
    {
        LocalFile { game: nxm.domain_name.clone(), file_name, mod_id: nxm.mod_id, file_id: nxm.file_id }
    }

    /// Where the file is, under the local data directory `data_local_dir`.
    pub fn path(&self, data_local_dir: &str) -> (r: String)
        ensures
            r@ == spec_push(spec_download_dir(data_local_dir@, self.game@), self.file_name@),
    {
        let d = download_dir(data_local_dir, self.game.as_str());
        path_join(d.as_str(), self.file_name.as_str())
    }
}

} // verus!
