//! Parsing of the daemon's command line: help, version, and a `-v` run that
//! raises the verbosity.  The daemon's log file has a fixed place, so `-v`
//! takes no file name here.

use vstd::prelude::*;

use crate::client_args::{all_vs, flag_help, flag_verbose_prefix, flag_version, ArgError};

verus! {

/// The daemon's parsed command line.
#[derive(Copy, Clone, Debug, PartialEq, Eq, Structural)]
pub struct Args {
    pub display_help: bool,
    pub display_version: bool,
    pub verbosity: u64,
}

/// The grammar of the daemon's command line, from argument `i` on.
pub open spec fn spec_parse_args(argv: Seq<Seq<u8>>, i: int, acc: Args) -> Result<Args, ArgError>
    decreases argv.len() - i,
{
    if i >= argv.len() {
        Ok(acc)
    } else {
        let arg = argv[i];
        if flag_version(arg) {
            spec_parse_args(argv, i + 1, Args { display_version: true, ..acc })
        } else if flag_help(arg) {
            spec_parse_args(argv, i + 1, Args { display_help: true, ..acc })
        } else if flag_verbose_prefix(arg) {
            if all_vs(arg) {
                spec_parse_args(argv, i + 1, Args { verbosity: (arg.len() - 1) as u64, ..acc })
            } else {
                Err(ArgError::UnexpectedShortArgument)
            }
        } else {
            Err(ArgError::UnexpectedArgument)
        }
    }
}

impl Args {
    /// The empty command line.
    pub fn new() -> (a: Args)
        ensures
            a == (Args { display_help: false, display_version: false, verbosity: 0u64 }),
    {
        Args { display_help: false, display_version: false, verbosity: 0 }
    }

    /// Parse the daemon's command line, program name first: decides
    /// `spec_parse_args` exactly, from the argument after the program name.
    pub fn parse_args(argv: &Vec<Vec<u8>>) -> (r: Result<Args, ArgError>)
        ensures
            r == spec_parse_args(
                argv@.map_values(|x: Vec<u8>| x@),
                1,
                (Args { display_help: false, display_version: false, verbosity: 0u64 }),
            ),
    {
        parse_rest(argv, 1, Args::new())
    }
}

/// Parse from argument `i` on, mirroring the grammar's recursion.
fn parse_rest(argv: &Vec<Vec<u8>>, i: usize, acc: Args) -> (r: Result<Args, ArgError>)
    ensures
        r == spec_parse_args(argv@.map_values(|x: Vec<u8>| x@), i as int, acc),
    decreases argv@.len() - i,
{
    let n = argv.len();
    if i >= n {
        return Ok(acc);
    }
    let arg = &argv[i];
    if crate::client_args::matches_version(arg.as_slice()) {
        parse_rest(argv, i + 1, Args { display_version: true, ..acc })
    } else if crate::client_args::matches_help(arg.as_slice()) {
        parse_rest(argv, i + 1, Args { display_help: true, ..acc })
    } else {
        match crate::client_args::parse_verbose(arg.as_slice()) {
            None => Err(ArgError::UnexpectedArgument),
            Some(None) => Err(ArgError::UnexpectedShortArgument),
            Some(Some(verbosity)) => parse_rest(argv, i + 1, Args { verbosity, ..acc }),
        }
    }
}

} // verus!
