//! Where an entry of an archive is written.
use crate::path::{normalize_path, path_join, spec_normalize, spec_push};
use vstd::prelude::*;

verus! {

/// The target of an archive entry: the entry's path, normalised, under the destination directory.
pub fn entry_target(dest_dir: &str, entry_path: &str) -> (r: String)
    ensures
        r@ == spec_push(dest_dir@, spec_normalize(entry_path@)),
{
    let n = normalize_path(entry_path);
    path_join(dest_dir, n.as_str())
}

} // verus!
