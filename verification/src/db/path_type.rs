//! Where the per-game cache keeps each kind of API record.
use crate::path::{path_join, spec_push};
use crate::text::{append_decimal, append_str, decimal};
use vstd::prelude::*;

verus! {

/// The cache directory of `game`, under `data_local_dir` (the user's local data directory).
pub open spec fn spec_cache_dir(data_local_dir: Seq<char>, game: Seq<char>) -> Seq<char> {
    spec_push(spec_push(data_local_dir, "dmodman"@), game)
}

/// The cache directory of `game`, under `data_local_dir` (the user's local data directory).
pub fn cache_dir(data_local_dir: &str, game: &str) -> (r: String)
    ensures
        r@ == spec_cache_dir(data_local_dir@, game@),
{
    let a = path_join(data_local_dir, "dmodman");
    path_join(a.as_str(), game)
}

/// The download directory of `game`, under `data_local_dir`.
pub open spec fn spec_download_dir(data_local_dir: Seq<char>, game: Seq<char>) -> Seq<char> {
    spec_push(spec_cache_dir(data_local_dir, game), "downloads"@)
}

/// The download directory of `game`, under `data_local_dir`.
pub fn download_dir(data_local_dir: &str, game: &str) -> (r: String)
    ensures
        r@ == spec_download_dir(data_local_dir@, game@),
{
    let c = cache_dir(data_local_dir, game);
    path_join(c.as_str(), "downloads")
}

/// A cached API record of a game.
pub enum PathType<'a> {
    /// game, mod id, file id
    DownloadLink(&'a str, &'a u32, &'a u64),
    /// game, mod id, file id
    FileDetails(&'a str, &'a u32, &'a u64),
    /// game, mod id
    FileList(&'a str, &'a u32),
    /// game
    GameInfo(&'a str),
    /// game, mod id, file id
    Md5Search(&'a str, &'a u32, &'a u64),
    /// game, mod id
    ModInfo(&'a str, &'a u32),
}

/// `<mod id>-<file id>.json`.
pub open spec fn pair_json(mod_id: u32, file_id: u64) -> Seq<char> {
    decimal(mod_id as nat) + "-"@ + decimal(file_id as nat) + ".json"@
}

/// `<n>.json`.
pub open spec fn number_json(n: nat) -> Seq<char> {
    decimal(n) + ".json"@
}

/// Where a record is cached, under the local data directory `d`.
pub open spec fn spec_path_type(p: PathType, d: Seq<char>) -> Seq<char> {
    match p {
        PathType::DownloadLink(game, mod_id, file_id) => spec_push(
            spec_push(spec_cache_dir(d, game@), "download_links"@),
            pair_json(*mod_id, *file_id),
        ),
        PathType::FileDetails(game, mod_id, file_id) => spec_push(
            spec_push(spec_cache_dir(d, game@), "file_details"@),
            pair_json(*mod_id, *file_id),
        ),
        PathType::FileList(game, mod_id) => spec_push(
            spec_push(spec_cache_dir(d, game@), "file_lists"@),
            number_json(*mod_id as nat),
        ),
        PathType::GameInfo(game) => spec_push(spec_cache_dir(d, game@), game@ + ".json"@),
        PathType::Md5Search(game, mod_id, file_id) => spec_push(
            spec_push(spec_cache_dir(d, game@), "md5_search"@),
            pair_json(*mod_id, *file_id),
        ),
        PathType::ModInfo(game, mod_id) => spec_push(
            spec_push(spec_cache_dir(d, game@), "mod_info"@),
            number_json(*mod_id as nat),
        ),
    }
}

fn pair_name(mod_id: u32, file_id: u64) -> (r: String)
    ensures
        r@ == pair_json(mod_id, file_id),
{
    let mut s = String::new();
    append_decimal(&mut s, mod_id as u64);
    append_str(&mut s, "-");
    append_decimal(&mut s, file_id);
    append_str(&mut s, ".json");
    assert(Seq::<char>::empty() + decimal(mod_id as nat) =~= decimal(mod_id as nat));
    s
}

fn number_name(n: u64) -> (r: String)
    ensures
        r@ == number_json(n as nat),
{
    let mut s = String::new();
    append_decimal(&mut s, n);
    append_str(&mut s, ".json");
    assert(Seq::<char>::empty() + decimal(n as nat) =~= decimal(n as nat));
    s
}

impl<'a> PathType<'a> {
    /// Where the record is cached, under the local data directory `data_local_dir`.
    pub fn path(&self, data_local_dir: &str) -> (r: String)
        ensures
            r@ == spec_path_type(*self, data_local_dir@),
    {
        match self {
            PathType::DownloadLink(game, mod_id, file_id) => {
                let c = cache_dir(data_local_dir, game);
                let d = path_join(c.as_str(), "download_links");
                let n = pair_name(**mod_id, **file_id);
                path_join(d.as_str(), n.as_str())
            },
            PathType::FileDetails(game, mod_id, file_id) => {
                let c = cache_dir(data_local_dir, game);
                let d = path_join(c.as_str(), "file_details");
                let n = pair_name(**mod_id, **file_id);
                path_join(d.as_str(), n.as_str())
            },
            PathType::FileList(game, mod_id) => {
                let c = cache_dir(data_local_dir, game);
                let d = path_join(c.as_str(), "file_lists");
                let n = number_name(**mod_id as u64);
                path_join(d.as_str(), n.as_str())
            },
            PathType::GameInfo(game) => {
                let c = cache_dir(data_local_dir, game);
                let mut n = String::new();
                append_str(&mut n, game);
                append_str(&mut n, ".json");
                assert(Seq::<char>::empty() + game@ =~= game@);
                path_join(c.as_str(), n.as_str())
            },
            PathType::Md5Search(game, mod_id, file_id) => {
                let c = cache_dir(data_local_dir, game);
                let d = path_join(c.as_str(), "md5_search");
                let n = pair_name(**mod_id, **file_id);
                path_join(d.as_str(), n.as_str())
            },
            PathType::ModInfo(game, mod_id) => {
                let c = cache_dir(data_local_dir, game);
                let d = path_join(c.as_str(), "mod_info");
                let n = number_name(**mod_id as u64);
                path_join(d.as_str(), n.as_str())
            },
        }
    }
}

} // verus!
