//! The command line: no argument runs the interface in the foreground, `-d`
//! runs in the background, and an `nxm://` URL is downloaded.
use crate::text::{starts_with, str_eq};
use vstd::prelude::*;

verus! {

/// How the program was asked to run.
pub struct CliOpts {
    pub is_interactive: bool,
    pub nxm_str_opt: Option<String>,
}

/// Why the program stops before it starts: the help was asked for, or the
/// arguments are wrong.
#[derive(PartialEq, Eq, Structural, Debug, Clone, Copy)]
pub enum CliExit {
    /// Print the help text and exit successfully.
    Help,
    /// More than one argument was given.
    TooManyArguments,
    /// The argument is neither `-d`, `--daemonize` nor an `nxm://` URL.
    UnexpectedArgument,
}

impl CliExit {
    /// Whether the program exits successfully.
    pub fn is_success(&self) -> (r: bool)
        ensures
            r == (*self == CliExit::Help),
    {
        match self {
            CliExit::Help => true,
            _ => false,
        }
    }

    /// The message printed for a wrong command line; empty for the help,
    /// whose text carries the program's name and version.
    pub fn message(&self) -> (r: String)
        ensures
            *self == CliExit::Help ==> r@ == Seq::<char>::empty(),
            *self == CliExit::TooManyArguments ==> r@
                == "Too many arguments. Valid arguments are \"-d\" or an nxm:// URL."@,
            *self == CliExit::UnexpectedArgument ==> r@
                == "Arguments are expected only when acting as an nxm:// URL handler."@,
    {
        match self {
            CliExit::Help => String::new(),
            CliExit::TooManyArguments => {
                "Too many arguments. Valid arguments are \"-d\" or an nxm:// URL.".to_string()
            },
            CliExit::UnexpectedArgument => {
                "Arguments are expected only when acting as an nxm:// URL handler.".to_string()
            },
        }
    }
}

/// Whether the single argument asks for the help.
pub open spec fn is_help_flag(a: Seq<char>) -> bool {
    a == "--help"@ || a == "-h"@
}

/// Whether an argument asks to run in the background.
pub open spec fn is_daemonize_flag(a: Seq<char>) -> bool {
    a == "-d"@ || a == "--daemonize"@
}

/// What a command line (the program's name first) asks for: whether to run
/// interactively and which URL to download, or why to stop.
pub open spec fn spec_cli(args: Seq<Seq<char>>) -> Result<(bool, Option<Seq<char>>), CliExit> {
    if args.len() == 1 && is_help_flag(args[0]) {
        Err(CliExit::Help)
    } else if args.len() > 2 {
        Err(CliExit::TooManyArguments)
    } else if args.len() == 2 {
        if "nxm://"@.is_prefix_of(args[1]) {
            Ok((true, Some(args[1])))
        } else if is_daemonize_flag(args[1]) {
            Ok((false, None))
        } else {
            Err(CliExit::UnexpectedArgument)
        }
    } else {
        Ok((true, None))
    }
}

/// The texts of the arguments.
pub open spec fn arg_views(args: Seq<String>) -> Seq<Seq<char>> {
    args.map_values(|a: String| a@)
}

impl CliOpts {
    /// The options of the command line `args`, whose first item is the
    /// program's name.
    pub fn new(args: &Vec<String>) -> (r: Result<CliOpts, CliExit>)
        ensures
            match spec_cli(arg_views(args@)) {
                Ok((interactive, nxm)) => r is Ok && r->Ok_0.is_interactive == interactive
                    && match r->Ok_0.nxm_str_opt {
                    Some(s) => nxm == Some(s@),
                    None => nxm is None,
                },
                Err(e) => r == Err::<CliOpts, CliExit>(e),
            },
    {
        let ghost views = arg_views(args@);
        let n = args.len();
        if n == 1 {
            let a0 = args[0].as_str();
            assert(a0@ == views[0]);
            if str_eq(a0, "--help") || str_eq(a0, "-h") {
                return Err(CliExit::Help);
            }
        }
        if n > 2 {
            return Err(CliExit::TooManyArguments);
        }
        let mut nxm_str_opt: Option<String> = None;
        let mut is_interactive = true;
        if n == 2 {
            let first_arg = args[1].as_str();
            assert(first_arg@ == views[1]);
            if starts_with(first_arg, "nxm://") {
                nxm_str_opt = Some(first_arg.to_string());
            } else if str_eq(first_arg, "-d") || str_eq(first_arg, "--daemonize") {
                is_interactive = false;
            } else {
                return Err(CliExit::UnexpectedArgument);
            }
        }
        Ok(CliOpts { is_interactive, nxm_str_opt })
    }
}

} // verus!
