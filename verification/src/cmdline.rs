//! The command line of the mod-info lookup: `dmodman [game] mod_id`.
use crate::text::{parse_u32, spec_parse_u32, str_eq};
use vstd::prelude::*;

verus! {

/// Whether an argument asks for the usage text.
pub open spec fn is_usage_flag(a: Seq<char>) -> bool {
    a == "-h"@ || a == "--help"@
}

/// Whether the command line `args` (the program's name first) asks for the
/// usage text: it has no argument, or its only argument is `-h` or `--help`.
pub open spec fn spec_usage_requested(args: Seq<Seq<char>>) -> bool {
    args.len() == 1 || (args.len() == 2 && is_usage_flag(args[1]))
}

/// Whether the mod id of the command line, where one is given, is a number;
/// the lookup cannot go on otherwise.
pub open spec fn mod_id_valid(args: Seq<Seq<char>>) -> bool {
    &&& (args.len() == 2 && !is_usage_flag(args[1])) ==> spec_parse_u32(args[1]) is Some
    &&& args.len() == 3 ==> spec_parse_u32(args[2]) is Some
}

/// The game and mod id that `args` ask for; with one argument the game is
/// `config_game`, the game of the configuration.
pub open spec fn spec_check_args(args: Seq<Seq<char>>, config_game: Seq<char>) -> Option<
    (Seq<char>, u32),
> {
    if args.len() == 2 && !is_usage_flag(args[1]) {
        Some((config_game, spec_parse_u32(args[1])->0))
    } else if args.len() == 3 {
        Some((args[1], spec_parse_u32(args[2])->0))
    } else {
        None
    }
}

/// The texts of the arguments.
pub open spec fn arg_views(args: Seq<String>) -> Seq<Seq<char>> {
    args.map_values(|a: String| a@)
}

/// Whether the usage text is to be printed for `args`.
pub fn usage_requested(args: &Vec<String>) -> (r: bool)
    ensures
        r == spec_usage_requested(arg_views(args@)),
{
    let ghost views = arg_views(args@);
    let n = args.len();
    if n == 1 {
        return true;
    }
    if n == 2 {
        let a = args[1].as_str();
        assert(a@ == views[1]);
        return str_eq(a, "-h") || str_eq(a, "--help");
    }
    false
}

/// The game and mod id to look up, from the command line `args`.
pub fn check_args(args: &Vec<String>, config_game: &str) -> (r: Option<(String, u32)>)
    requires
        mod_id_valid(arg_views(args@)),
    ensures
        match spec_check_args(arg_views(args@), config_game@) {
            Some((game, mod_id)) => r is Some && (r->0).0@ == game && (r->0).1 == mod_id,
            None => r is None,
        },
{
    let ghost views = arg_views(args@);
    let n = args.len();
    if n == 2 {
        let arg = args[1].as_str();
        assert(arg@ == views[1]);
        if str_eq(arg, "-h") || str_eq(arg, "--help") {
            return None;
        }
        let mod_id = parse_u32(arg);
        match mod_id {
            Some(m) => return Some((config_game.to_string(), m)),
            None => return None,
        }
    } else if n == 3 {
        let game = args[1].as_str();
        let arg = args[2].as_str();
        assert(game@ == views[1]);
        assert(arg@ == views[2]);
        let mod_id = parse_u32(arg);
        match mod_id {
            Some(m) => return Some((game.to_string(), m)),
            None => return None,
        }
    }
    None
}

} // verus!
