//! The command line of the server: one option, the path of the
//! configuration file.

use vstd::prelude::*;
use vstd::string::StringExecFns;

verus! {

/// The name of the program.
pub const PROGRAM: &'static str = "rdhcpd";

/// The version that `--version` prints.
pub const VERSION: &'static str = "0.1.0";

/// What the program is, as `--help` prints it.
pub const ABOUT: &'static str = "A DHCP server";

/// The name of the option: `--cfg`.
pub const CFG: &'static str = "cfg";

/// The short name of the option: `-c`.
pub const CFG_SHORT: char = 'c';

/// What `--help` says of the option: "path of the configuration file", in
/// Chinese.
pub const CFG_HELP: &'static str = "\u{914d}\u{7f6e}\u{6587}\u{4ef6}\u{8def}\u{5f84}";

/// The path of the configuration file where the command line names none.
pub const DEFAULT_CFG: &'static str = "/etc/rdhcpd.yml";

/// What the command line asks for.
#[derive(Clone, Debug, PartialEq, Eq)]
pub struct Args {
    /// The path of the configuration file.
    pub cfg: String,
}

/// A command line that is not carried out: a wrong one, or one that asks
/// for the help or the version.
#[derive(Clone, Debug, PartialEq, Eq)]
pub struct ArgsError {
    /// What to print.
    pub message: String,
    /// The status to exit with.
    pub exit_code: i32,
}

/// What clap reads from the command line `argv`, the program's name first,
/// for a command whose one option is `--cfg` (`-c`) with `DEFAULT_CFG` as
/// its default: the value of the option where the command line is
/// accepted, and nothing where clap refuses it or is asked for the help
/// or the version.
pub uninterp spec fn spec_cfg_flag(argv: Seq<Seq<char>>) -> Option<Option<Seq<char>>>;

/// What a result of clap says of the option.
pub open spec fn spec_found(found: Result<Option<String>, (String, i32)>) -> Option<
    Option<Seq<char>>,
> {
    match found {
        Ok(Some(cfg)) => Some(Some(cfg@)),
        Ok(None) => Some(None),
        Err(_) => None,
    }
}

/// What the command line asks for, once clap has read the option.
pub open spec fn spec_args(found: Option<Option<Seq<char>>>) -> Option<Seq<char>> {
    match found {
        Some(Some(cfg)) => Some(cfg),
        Some(None) => Some(DEFAULT_CFG@),
        None => None,
    }
}

/// `Command::try_get_matches_from` of clap, on a command built with
/// `Command::new` and `Arg::new`, and `ArgMatches::get_one` on what it
/// gives: the value of `--cfg` on the command line `argv`. The value
/// depends on `argv` alone, and is the default where `argv` holds no more
/// than the program's name. On a refusal the result holds clap's message
/// and exit code.
#[verifier::external_body]
fn clap_cfg(argv: &Vec<String>) -> (found: Result<Option<String>, (String, i32)>)
    ensures
        spec_found(found) == spec_cfg_flag(argv.deep_view()),
        argv.len() <= 1 ==> spec_found(found) == Some(Some(DEFAULT_CFG@)),
{
    let option = clap::Arg::new(CFG).short(CFG_SHORT).long(CFG).action(clap::ArgAction::Set)
        .default_value(DEFAULT_CFG).help(CFG_HELP);
    let command = clap::Command::new(PROGRAM).version(VERSION).about(ABOUT).arg(option);
    match command.try_get_matches_from(argv) {
        Ok(matches) => Ok(matches.get_one::<String>(CFG).cloned()),
        Err(error) => Err((error.render().to_string(), error.exit_code())),
    }
}

impl Args {
    /// What the command line asks for, once clap has read the option: the
    /// path it found, the default path where it found none, or its refusal.
    pub fn from_flag(found: Result<Option<String>, (String, i32)>) -> (r: Result<Args, ArgsError>)
        ensures
            match r {
                Ok(args) => spec_args(spec_found(found)) == Some(args.cfg@),
                Err(e) => found matches Err(refusal) && e.message == refusal.0 && e.exit_code
                    == refusal.1,
            },
    {
        match found {
            Ok(Some(cfg)) => Ok(Args { cfg }),
            Ok(None) => Ok(Args { cfg: String::from_str(DEFAULT_CFG) }),
            Err((message, exit_code)) => Err(ArgsError { message, exit_code }),
        }
    }

    /// Reads the command line `argv`, the program's name first. A command
    /// line with nothing after the program's name asks for the default
    /// path.
    pub fn parse_args(argv: &Vec<String>) -> (r: Result<Args, ArgsError>)
        ensures
            match r {
                Ok(args) => spec_args(spec_cfg_flag(argv.deep_view())) == Some(args.cfg@),
                Err(_) => spec_cfg_flag(argv.deep_view()) is None,
            },
            argv.len() <= 1 ==> r is Ok && r->Ok_0.cfg@ == DEFAULT_CFG@,
    {
        Args::from_flag(clap_cfg(argv))
    }
}

} // verus!
