//! The checks of a finished download against the md5 lookup of its file.
use vstd::prelude::*;

verus! {

/// Why an md5 lookup does not confirm a download.
#[derive(PartialEq, Eq, Structural, Debug, Clone, Copy)]
pub enum Md5SearchError {
    /// The lookup found a file of another game.
    GameMismatch,
    /// The lookup found another file than the one downloaded.
    HashMismatch,
}

/// A download is confirmed when the md5 lookup of the downloaded file finds
/// the file that the link named (`nxm_file_id`).
pub fn check_dl_integrity(nxm_file_id: u64, found_file_id: u64) -> (r: Result<(), Md5SearchError>)
    ensures
        r is Ok <==> nxm_file_id == found_file_id,
        r is Err ==> r == Err::<(), Md5SearchError>(Md5SearchError::HashMismatch),
{
    if nxm_file_id == found_file_id {
        Ok(())
    } else {
        Err(Md5SearchError::HashMismatch)
    }
}

/// An md5 lookup among the files of `game` holds when the file it found is
/// of that game (`found_game`).
pub fn check_md5_game(game: &str, found_game: &str) -> (r: Result<(), Md5SearchError>)
    ensures
        r is Ok <==> game@ == found_game@,
        r is Err ==> r == Err::<(), Md5SearchError>(Md5SearchError::GameMismatch),
{
    if crate::text::str_eq(found_game, game) {
        Ok(())
    } else {
        Err(Md5SearchError::GameMismatch)
    }
}

} // verus!
