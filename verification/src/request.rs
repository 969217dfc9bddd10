//! The requests to the Nexus Mods API: the endpoint of each kind of record
//! and the full URL of a request.
use crate::api::NxmUrl;
use crate::text::{append_decimal, append_str, decimal};
use vstd::prelude::*;

verus! {

/// The root of every API request.
pub const API_URL: &'static str = "https://api.nexusmods.com/v1/";

/// The endpoint of the md5 lookup of `md5` among the files of `game`.
pub fn md5_search_endpoint(game: &str, md5: &str) -> (r: String)
    ensures
        r@ == "games/"@ + game@ + "/mods/md5_search/"@ + md5@ + ".json"@,
{
    let mut s = "games/".to_string();
    append_str(&mut s, game);
    append_str(&mut s, "/mods/md5_search/");
    append_str(&mut s, md5);
    append_str(&mut s, ".json");
    proof {
        reveal_strlit("games/");
    }
    s
}

/// The endpoint of the download link of the file that `nxm` names, with the
/// link's query.
pub fn dl_link_endpoint(nxm: &NxmUrl) -> (r: String)
    ensures
        r@ == "games/"@ + nxm.domain_name@ + "/mods/"@ + decimal(nxm.mod_id as nat) + "/files/"@ + decimal(
            nxm.file_id as nat,
        ) + "/download_link.json?"@ + nxm.query@,
{
    let mut s = "games/".to_string();
    append_str(&mut s, nxm.domain_name.as_str());
    append_str(&mut s, "/mods/");
    append_decimal(&mut s, nxm.mod_id as u64);
    append_str(&mut s, "/files/");
    append_decimal(&mut s, nxm.file_id);
    append_str(&mut s, "/download_link.json?");
    append_str(&mut s, nxm.query.as_str());
    proof {
        reveal_strlit("games/");
    }
    s
}

/// The endpoint of the description of mod `mod_id` of `game`.
pub fn mod_info_endpoint(game: &str, mod_id: u32) -> (r: String)
    ensures
        r@ == "games/"@ + game@ + "/mods/"@ + decimal(mod_id as nat) + ".json"@,
{
    let mut s = "games/".to_string();
    append_str(&mut s, game);
    append_str(&mut s, "/mods/");
    append_decimal(&mut s, mod_id as u64);
    append_str(&mut s, ".json");
    proof {
        reveal_strlit("games/");
    }
    s
}

/// The endpoint of the file list of mod `mod_id` of `game`.
pub fn file_list_endpoint(game: &str, mod_id: u32) -> (r: String)
    ensures
        r@ == "games/"@ + game@ + "/mods/"@ + decimal(mod_id as nat) + "/files.json"@,
{
    let mut s = "games/".to_string();
    append_str(&mut s, game);
    append_str(&mut s, "/mods/");
    append_decimal(&mut s, mod_id as u64);
    append_str(&mut s, "/files.json");
    proof {
        reveal_strlit("games/");
    }
    s
}

/// The URL of a request to `endpoint`.
pub fn api_url(endpoint: &str) -> (r: String)
    ensures
        r@ == "https://api.nexusmods.com/v1/"@ + endpoint@,
{
    let mut s = API_URL.to_string();
    proof {
        reveal_strlit("https://api.nexusmods.com/v1/");
    }
    append_str(&mut s, endpoint);
    s
}

/// The user agent of the requests: the program's name and `version`.
pub fn user_agent(version: &str) -> (r: String)
    ensures
        r@ == "dmodman "@ + version@,
{
    let mut s = "dmodman ".to_string();
    proof {
        reveal_strlit("dmodman ");
    }
    append_str(&mut s, version);
    s
}

} // verus!
