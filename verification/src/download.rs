//! Mod information from the Nexus API, looked up in the local cache first.
use crate::api::ModInfo;
use crate::path::{path_join, spec_push};
use crate::text::{append_decimal, append_str, decimal};
use vstd::prelude::*;

verus! {

/// The start of every mod information request.
pub const URL_MOD_PREFIX: &'static str = "https://api.nexusmods.com/v1/games/";

/// The end of every mod information request.
pub const URL_SUFFIX: &'static str = ".json";

/// The request URL of the information on mod `mod_id` of `game`.
pub open spec fn spec_mod_info_url(game: Seq<char>, mod_id: u32) -> Seq<char> {
    "https://api.nexusmods.com/v1/games/"@ + game + "/mods/"@ + decimal(mod_id as nat) + ".json"@
}

/// The request URL of the information on mod `mod_id` of `game`.
pub fn mod_info_url(game: &str, mod_id: u32) -> (r: String)
    ensures
        r@ == spec_mod_info_url(game@, mod_id),
{
    let mut url = URL_MOD_PREFIX.to_string();
    proof {
        reveal_strlit("https://api.nexusmods.com/v1/games/");
    }
    append_str(&mut url, game);
    append_str(&mut url, "/mods/");
    append_decimal(&mut url, mod_id as u64);
    append_str(&mut url, URL_SUFFIX);
    proof {
        reveal_strlit(".json");
    }
    url
}

/// Where the information on mod `mod_id` of `game` is cached, under the
/// cache directory.
pub open spec fn spec_mod_info_path(cache_dir: Seq<char>, game: Seq<char>, mod_id: u32) -> Seq<
    char,
> {
    spec_push(spec_push(cache_dir, game), decimal(mod_id as nat) + ".json"@)
}

/// Where the information on mod `mod_id` of `game` is cached, under the
/// cache directory.
pub fn mod_info_path(cache_dir: &str, game: &str, mod_id: u32) -> (r: String)
    ensures
        r@ == spec_mod_info_path(cache_dir@, game@, mod_id),
{
    let dir = path_join(cache_dir, game);
    let mut name = String::new();
    append_decimal(&mut name, mod_id as u64);
    append_str(&mut name, ".json");
    path_join(dir.as_str(), name.as_str())
}

/// Where the information on a mod comes from.
pub enum ModInfoSource {
    /// The cache had it.
    Cached(ModInfo),
    /// It is to be requested from this URL.
    Download(String),
}

/// The information on mod `mod_id` of `game`: `cached`, what the cache holds,
/// where it holds it; otherwise the request that fetches it.
pub fn get_mod_info(cached: Option<ModInfo>, game: &str, mod_id: u32) -> (r: ModInfoSource)
    ensures
        match cached {
            Some(mi) => r == ModInfoSource::Cached(mi),
            None => r is Download && r->Download_0@ == spec_mod_info_url(game@, mod_id),
        },
{
    match cached {
        Some(mi) => ModInfoSource::Cached(mi),
        None => ModInfoSource::Download(mod_info_url(game, mod_id)),
    }
}

} // verus!
