//! The single-game configuration: the game to manage comes from the command
//! line, from an `nxm://` link when cross-game modding is on, or from the
//! config file; downloads of a game go to a directory named after it.
use crate::path::{path_join, spec_push};
use crate::text::{spec_trim, trim};
use vstd::prelude::*;

verus! {

/// What the config file of a single-game setup holds.
pub struct ParsedConfig {
    pub apikey: Option<String>,
    pub cross_game_modding: Option<bool>,
    pub game: Option<String>,
    pub download_dir: Option<String>,
}

/// A single-game configuration.
pub struct Config {
    apikey: Option<String>,
    cross_game_modding: bool,
    game: Option<String>,
    download_dir: String,
}

/// The game that is managed: the one named on the command line, else the game
/// of the `nxm://` link when cross-game modding is on, else the configured one.
pub open spec fn spec_selected_game(
    game_arg: Option<Seq<char>>,
    nxm_game: Option<Seq<char>>,
    parsed: ParsedConfig,
) -> Option<Seq<char>> {
    match game_arg {
        Some(g) => Some(g),
        None => if parsed.cross_game_modding == Some(true) && nxm_game is Some {
            nxm_game
        } else {
            crate::config::opt_view(parsed.game)
        },
    }
}

fn opt_str_view(o: Option<&str>) -> (r: Option<String>)
    ensures
        crate::config::opt_view(r) == match o {
            Some(s) => Some(s@),
            None => None::<Seq<char>>,
        },
{
    match o {
        Some(s) => Some(s.to_owned()),
        None => None,
    }
}

impl Config {
    /// The API key, if one is configured.
    pub closed spec fn spec_apikey(self) -> Option<String> {
        self.apikey
    }

    /// Whether the game of an `nxm://` link selects the managed game.
    pub closed spec fn spec_cross_game_modding(self) -> bool {
        self.cross_game_modding
    }

    /// Whether the game of an `nxm://` link selects the managed game.
    pub fn cross_game_modding(&self) -> (r: bool)
        ensures
            r == self.spec_cross_game_modding(),
    {
        self.cross_game_modding
    }

    /// The managed game, if one is known.
    pub closed spec fn spec_game(self) -> Option<Seq<char>> {
        crate::config::opt_view(self.game)
    }

    /// The configured download root, before the game's directory.
    pub closed spec fn spec_download_root(self) -> Seq<char> {
        self.download_dir@
    }

    /// The configuration read from `parsed`: `game_arg` is the game named on the
    /// command line, `nxm_game_opt` the game of an `nxm://` link, and
    /// `default_download_dir` the download root used when the file sets none.
    pub fn new(
        game_arg: Option<&str>,
        nxm_game_opt: Option<String>,
        parsed: ParsedConfig,
        default_download_dir: String,
    ) -> (r: Self)
        ensures
            r.spec_apikey() == parsed.apikey,
            r.spec_cross_game_modding() == (parsed.cross_game_modding == Some(true)),
            r.spec_game() == spec_selected_game(
                match game_arg {
                    Some(s) => Some(s@),
                    None => None,
                },
                crate::config::opt_view(nxm_game_opt),
                parsed,
            ),
            r.spec_download_root() == (match parsed.download_dir {
                Some(d) => d@,
                None => default_download_dir@,
            }),
    {
        let cross_game_modding = match parsed.cross_game_modding {
            Some(true) => true,
            _ => false,
        };
        let game = if game_arg.is_some() {
            opt_str_view(game_arg)
        } else if cross_game_modding && nxm_game_opt.is_some() {
            nxm_game_opt
        } else {
            parsed.game
        };
        let download_dir = match parsed.download_dir {
            Some(d) => d,
            None => default_download_dir,
        };
        Config { apikey: parsed.apikey, game, cross_game_modding, download_dir }
    }

    /// Where the library keeps the data of the managed game, under `data_local_dir`.
    pub fn game_cache_dir(&self, data_local_dir: &str) -> (r: String)
        requires
            self.spec_game() is Some,
        ensures
            r@ == spec_push(spec_push(data_local_dir@, "dmodman"@), self.spec_game()->0),
    {
        let a = path_join(data_local_dir, "dmodman");
        match &self.game {
            Some(g) => path_join(a.as_str(), g.as_str()),
            None => a,
        }
    }

    /// Where the managed game's downloads go: its directory under the download root.
    pub fn download_dir(&self) -> (r: String)
        requires
            self.spec_game() is Some,
        ensures
            r@ == spec_push(self.spec_download_root(), self.spec_game()->0),
    {
        match &self.game {
            Some(g) => path_join(self.download_dir.as_str(), g.as_str()),
            None => self.download_dir.clone(),
        }
    }

    /// The API key, if one is configured.
    pub fn apikey(&self) -> (r: Option<String>)
        ensures
            r == self.spec_apikey(),
    {
        crate::api::clone_opt_string(&self.apikey)
    }

    /// The managed game, if one is known.
    pub fn game(&self) -> (r: Option<String>)
        ensures
            crate::config::opt_view(r) == self.spec_game(),
    {
        crate::api::clone_opt_string(&self.game)
    }
}

/// The API key kept in the file `apikey` of the configuration directory,
/// given the file's contents when it could be read: the text without its
/// surrounding white space, or `None` when the key is missing.
pub fn read_api_key(contents: Option<&str>) -> (r: Option<String>)
    ensures
        match contents {
            Some(c) => r is Some && r->0@ == spec_trim(c@),
            None => r is None,
        },
{
    match contents {
        Some(c) => Some(trim(c)),
        None => None,
    }
}

/// The game named in the file `game` of the configuration directory, given
/// the file's contents: the text without its surrounding white space.
pub fn game(contents: &str) -> (r: String)
    ensures
        r@ == spec_trim(contents@),
{
    trim(contents)
}

} // verus!
