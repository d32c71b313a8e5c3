//! Parsing of the client's command line.
//!
//! Arguments arrive as raw byte strings; the caller hands them over exactly
//! as the process received them, program name first.  Flags may repeat; a
//! later occurrence overwrites an earlier one.  A session target (`-k`,
//! `-a`) is a nonzero decimal id where it parses as one, and a session name
//! otherwise; `-A` demands an id and then a name; `-v`, with any further
//! `v`s appended, raises the verbosity and takes the log file's name, to
//! which `.log` is appended when missing.
//!
//! The grammar stands as the specification `spec_parse_args`; the parser is
//! proved to decide it exactly.

use vstd::prelude::*;

use crate::bytes_eq;
use crate::proto::Str;

verus! {

/// A value of one of two kinds: a parsed id, or the raw name.
#[derive(Debug, Clone, PartialEq, Eq)]
pub enum Either<A, B> {
    This(A),
    That(B),
}

impl<A, B> Either<A, B> {
    /// The `This` value; the caller has established which kind this is.
    pub fn unwrap_this(self) -> (r: A)
        requires
            self is This,
        ensures
            self == Either::<A, B>::This(r),
    {
        match self {
            Either::This(a) => a,
            Either::That(_) => unreached(),
        }
    }

    /// The `That` value; the caller has established which kind this is.
    pub fn unwrap_that(self) -> (r: B)
        requires
            self is That,
        ensures
            self == Either::<A, B>::That(r),
    {
        match self {
            Either::This(_) => unreached(),
            Either::That(b) => b,
        }
    }
}

/// Why the command line was refused.
#[derive(Copy, Clone, Debug, PartialEq, Eq, Structural)]
pub enum ArgError {
    /// An argument that is no known flag.
    UnexpectedArgument,
    /// A `-v...` run holding a letter other than `v`.
    UnexpectedShortArgument,
    /// A flag wanting a session id or name got none.
    ExpectedSessionTarget,
    /// A flag wanting a session id got none.
    ExpectedSessionId,
    /// A flag wanting a session id got something that is not a nonzero
    /// number.
    SessionIdNotANumber,
    /// A flag wanting a session name got none.
    ExpectedSessionName,
    /// `-v` got no usable log file name.
    ExpectedLogFileName,
}

/// The client's parsed command line.
#[derive(Debug, Clone, PartialEq, Eq)]
pub struct Args {
    pub display_help: bool,
    pub display_version: bool,
    pub verbosity: Option<(u64, Str)>,
    pub use_force: bool,
    pub do_stop: bool,
    pub do_kill: Option<Either<u64, Str>>,
    pub do_attach: Option<Either<u64, Str>>,
    pub do_alias: Option<(u64, Str)>,
    pub do_list: bool,
}

/// Mathematical view of [`Args`].
pub struct ArgsV {
    pub display_help: bool,
    pub display_version: bool,
    pub verbosity: Option<(u64, Seq<u8>)>,
    pub use_force: bool,
    pub do_stop: bool,
    pub do_kill: Option<Either<u64, Seq<u8>>>,
    pub do_attach: Option<Either<u64, Seq<u8>>>,
    pub do_alias: Option<(u64, Seq<u8>)>,
    pub do_list: bool,
}

impl View for Args {
    type V = ArgsV;

    open spec fn view(&self) -> ArgsV {
        ArgsV {
            display_help: self.display_help,
            display_version: self.display_version,
            verbosity: match self.verbosity {
                Some((n, f)) => Some((n, f@)),
                None => None,
            },
            use_force: self.use_force,
            do_stop: self.do_stop,
            do_kill: match &self.do_kill {
                Some(Either::This(v)) => Some(Either::This(*v)),
                Some(Either::That(n)) => Some(Either::That(n@)),
                None => None,
            },
            do_attach: match &self.do_attach {
                Some(Either::This(v)) => Some(Either::This(*v)),
                Some(Either::That(n)) => Some(Either::That(n@)),
                None => None,
            },
            do_alias: match &self.do_alias {
                Some((sid, n)) => Some((*sid, n@)),
                None => None,
            },
            do_list: self.do_list,
        }
    }
}

/// The empty command line: no flags set.
pub open spec fn spec_args_default() -> ArgsV {
    ArgsV {
        display_help: false,
        display_version: false,
        verbosity: None,
        use_force: false,
        do_stop: false,
        do_kill: None,
        do_attach: None,
        do_alias: None,
        do_list: false,
    }
}

pub open spec fn flag_help(arg: Seq<u8>) -> bool {
    arg == seq![0x2Du8, 0x68u8] || arg == seq![0x2Du8, 0x2Du8, 0x68u8, 0x65u8, 0x6Cu8, 0x70u8]
}

pub open spec fn flag_version(arg: Seq<u8>) -> bool {
    arg == seq![0x2Du8, 0x56u8] || arg == seq![
        0x2Du8,
        0x2Du8,
        0x76u8,
        0x65u8,
        0x72u8,
        0x73u8,
        0x69u8,
        0x6Fu8,
        0x6Eu8,
    ]
}

pub open spec fn flag_force(arg: Seq<u8>) -> bool {
    arg == seq![0x2Du8, 0x66u8] || arg == seq![
        0x2Du8,
        0x2Du8,
        0x66u8,
        0x6Fu8,
        0x72u8,
        0x63u8,
        0x65u8,
    ]
}

pub open spec fn flag_stop(arg: Seq<u8>) -> bool {
    arg == seq![0x2Du8, 0x73u8] || arg == seq![0x2Du8, 0x2Du8, 0x73u8, 0x74u8, 0x6Fu8, 0x70u8]
}

pub open spec fn flag_list(arg: Seq<u8>) -> bool {
    arg == seq![0x2Du8, 0x6Cu8] || arg == seq![0x2Du8, 0x2Du8, 0x6Cu8, 0x69u8, 0x73u8, 0x74u8]
}

pub open spec fn flag_kill(arg: Seq<u8>) -> bool {
    arg == seq![0x2Du8, 0x6Bu8] || arg == seq![0x2Du8, 0x2Du8, 0x6Bu8, 0x69u8, 0x6Cu8, 0x6Cu8]
}

pub open spec fn flag_attach(arg: Seq<u8>) -> bool {
    arg == seq![0x2Du8, 0x61u8] || arg == seq![
        0x2Du8,
        0x2Du8,
        0x61u8,
        0x74u8,
        0x74u8,
        0x61u8,
        0x63u8,
        0x68u8,
    ]
}

pub open spec fn flag_alias(arg: Seq<u8>) -> bool {
    arg == seq![0x2Du8, 0x41u8] || arg == seq![
        0x2Du8,
        0x2Du8,
        0x61u8,
        0x6Cu8,
        0x69u8,
        0x61u8,
        0x73u8,
    ]
}

/// A `-v` run: a dash, then one or more letters, the first a `v`.
pub open spec fn flag_verbose_prefix(arg: Seq<u8>) -> bool {
    arg.len() >= 2 && arg[0] == 0x2D && arg[1] == 0x76
}

/// Every letter after the dash is a `v`.
pub open spec fn all_vs(arg: Seq<u8>) -> bool {
    forall|j: int| 2 <= j < arg.len() ==> #[trigger] arg[j] == 0x76
}

/// A session target: a nonzero decimal id where the bytes parse as one, the
/// raw name otherwise.
pub open spec fn spec_target(s: Seq<u8>) -> Either<u64, Seq<u8>> {
    if crate::text::spec_is_nonzero_u64(s) {
        Either::This(
            crate::text::spec_digits_val(crate::text::spec_unsigned_body(s)) as u64,
        )
    } else {
        Either::That(s)
    }
}

/// The log file's name: `.log` is appended when missing.
pub open spec fn spec_log_name(f: Seq<u8>) -> Seq<u8> {
    if f.len() >= 4 && f.subrange(f.len() - 4, f.len() as int) == seq![
        0x2Eu8,
        0x6Cu8,
        0x6Fu8,
        0x67u8,
    ] {
        f
    } else {
        f + seq![0x2Eu8, 0x6Cu8, 0x6Fu8, 0x67u8]
    }
}

/// The grammar of the client's command line, from argument `i` on, with the
/// flags parsed so far: the specification the parser is held to.
pub open spec fn spec_parse_args(argv: Seq<Seq<u8>>, i: int, acc: ArgsV) -> Result<
    ArgsV,
    ArgError,
>
    decreases argv.len() - i,
{
    if i >= argv.len() {
        Ok(acc)
    } else {
        let arg = argv[i];
        if flag_help(arg) {
            spec_parse_args(argv, i + 1, ArgsV { display_help: true, ..acc })
        } else if flag_version(arg) {
            spec_parse_args(argv, i + 1, ArgsV { display_version: true, ..acc })
        } else if flag_force(arg) {
            spec_parse_args(argv, i + 1, ArgsV { use_force: true, ..acc })
        } else if flag_stop(arg) {
            spec_parse_args(argv, i + 1, ArgsV { do_stop: true, ..acc })
        } else if flag_list(arg) {
            spec_parse_args(argv, i + 1, ArgsV { do_list: true, ..acc })
        } else if flag_kill(arg) {
            if i + 1 >= argv.len() {
                Err(ArgError::ExpectedSessionTarget)
            } else {
                spec_parse_args(
                    argv,
                    i + 2,
                    ArgsV { do_kill: Some(spec_target(argv[i + 1])), ..acc },
                )
            }
        } else if flag_attach(arg) {
            if i + 1 >= argv.len() {
                Err(ArgError::ExpectedSessionTarget)
            } else {
                spec_parse_args(
                    argv,
                    i + 2,
                    ArgsV { do_attach: Some(spec_target(argv[i + 1])), ..acc },
                )
            }
        } else if flag_alias(arg) {
            if i + 1 >= argv.len() {
                Err(ArgError::ExpectedSessionId)
            } else if !crate::text::spec_is_nonzero_u64(argv[i + 1]) {
                Err(ArgError::SessionIdNotANumber)
            } else if i + 2 >= argv.len() {
                Err(ArgError::ExpectedSessionName)
            } else {
                spec_parse_args(
                    argv,
                    i + 3,
                    ArgsV {
                        do_alias: Some(
                            (
                                crate::text::spec_digits_val(
                                    crate::text::spec_unsigned_body(argv[i + 1]),
                                ) as u64,
                                argv[i + 2],
                            ),
                        ),
                        ..acc
                    },
                )
            }
        } else if flag_verbose_prefix(arg) {
            if !all_vs(arg) {
                Err(ArgError::UnexpectedShortArgument)
            } else if i + 1 >= argv.len() {
                Err(ArgError::ExpectedLogFileName)
            } else if argv[i + 1].len() > 0 && argv[i + 1][0] == 0x2D {
                Err(ArgError::ExpectedLogFileName)
            } else {
                spec_parse_args(
                    argv,
                    i + 2,
                    ArgsV {
                        verbosity: Some(
                            ((arg.len() - 1) as u64, spec_log_name(argv[i + 1])),
                        ),
                        ..acc
                    },
                )
            }
        } else {
            Err(ArgError::UnexpectedArgument)
        }
    }
}

/// Whether `a` holds exactly these two bytes.
fn eq2(a: &[u8], c0: u8, c1: u8) -> (r: bool)
    ensures
        r == (a@ == seq![c0, c1]),
{
    let r = a.len() == 2 && a[0] == c0 && a[1] == c1;
    proof {
        if r {
            assert(a@ =~= seq![c0, c1]);
        }
    }
    r
}

/// Whether `a` holds exactly the bytes of `e`, a long flag's spelling.
fn eq_long(a: &[u8], e: &[u8]) -> (r: bool)
    ensures
        r == (a@ == e@),
{
    bytes_eq(a, e)
}

/// Whether `arg` spells the help flag, short or long.
pub fn matches_help(arg: &[u8]) -> (r: bool)
    ensures
        r == flag_help(arg@),
{
    eq2(arg, 0x2D, 0x68) || {
        let e: [u8; 6] = [0x2D, 0x2D, 0x68, 0x65, 0x6C, 0x70];
        eq_long(arg, e.as_slice())
    }
}

/// Whether `arg` spells the version flag, short or long.
pub fn matches_version(arg: &[u8]) -> (r: bool)
    ensures
        r == flag_version(arg@),
{
    eq2(arg, 0x2D, 0x56) || {
        let e: [u8; 9] = [0x2D, 0x2D, 0x76, 0x65, 0x72, 0x73, 0x69, 0x6F, 0x6E];
        eq_long(arg, e.as_slice())
    }
}

/// Whether `arg` is a `-v` run, and — when every further letter is a `v` —
/// how many `v`s it holds.
pub fn parse_verbose(arg: &[u8]) -> (r: Option<Option<u64>>)
    ensures
        match r {
            None => !flag_verbose_prefix(arg@),
            Some(None) => flag_verbose_prefix(arg@) && !all_vs(arg@),
            Some(Some(n)) => flag_verbose_prefix(arg@) && all_vs(arg@) && n == arg@.len() - 1,
        },
{
    if !(arg.len() >= 2 && arg[0] == 0x2D && arg[1] == 0x76) {
        return None;
    }
    let mut j: usize = 2;
    while j < arg.len()
        invariant
            2 <= j <= arg@.len(),
            arg@.len() >= 2,
            arg@[0] == 0x2D,
            arg@[1] == 0x76,
            forall|k: int| 2 <= k < j ==> #[trigger] arg@[k] == 0x76,
        decreases arg@.len() - j,
    {
        if arg[j] != 0x76 {
            return Some(None);
        }
        j += 1;
    }
    Some(Some((arg.len() - 1) as u64))
}

/// The log file's name, with `.log` appended when missing.
fn log_name(f: &Vec<u8>) -> (out: Vec<u8>)
    ensures
        out@ == spec_log_name(f@),
{
    let n = f.len();
    let suffixed = n >= 4 && f[n - 4] == 0x2E && f[n - 3] == 0x6C && f[n - 2] == 0x6F && f[n - 1]
        == 0x67;
    proof {
        if suffixed {
            assert(f@.subrange(f@.len() - 4, f@.len() as int) =~= seq![
                0x2Eu8,
                0x6Cu8,
                0x6Fu8,
                0x67u8,
            ]);
        } else if f@.len() >= 4 {
            assert(f@.subrange(f@.len() - 4, f@.len() as int)[0] == f@[f@.len() - 4]);
            assert(f@.subrange(f@.len() - 4, f@.len() as int)[1] == f@[f@.len() - 3]);
            assert(f@.subrange(f@.len() - 4, f@.len() as int)[2] == f@[f@.len() - 2]);
            assert(f@.subrange(f@.len() - 4, f@.len() as int)[3] == f@[f@.len() - 1]);
        }
    }
    let mut out = vstd::slice::slice_to_vec(f.as_slice());
    if !suffixed {
        out.push(0x2E);
        out.push(0x6C);
        out.push(0x6F);
        out.push(0x67);
        proof {
            assert(out@ =~= spec_log_name(f@));
        }
    }
    out
}

/// A session target: the parsed nonzero id, or the raw bytes as a name.
fn parse_target(s: &Vec<u8>) -> (r: Either<u64, Str>)
    ensures
        match r {
            Either::This(v) => spec_target(s@) == Either::<u64, Seq<u8>>::This(v),
            Either::That(n) => spec_target(s@) == Either::<u64, Seq<u8>>::That(n@),
        },
{
    match crate::text::parse_nonzero_u64(s.as_slice()) {
        Some(v) => Either::This(v),
        None => Either::That(vstd::slice::slice_to_vec(s.as_slice())),
    }
}

impl Args {
    /// The empty command line.
    pub fn new() -> (a: Args)
        ensures
            a@ == spec_args_default(),
    {
        Args {
            display_help: false,
            display_version: false,
            verbosity: None,
            use_force: false,
            do_stop: false,
            do_kill: None,
            do_attach: None,
            do_alias: None,
            do_list: false,
        }
    }

    /// Parse the client's command line, program name first: decides
    /// `spec_parse_args` exactly, from the argument after the program name.
    pub fn parse_args(argv: &Vec<Vec<u8>>) -> (r: Result<Args, ArgError>)
        ensures
            match r {
                Ok(a) => spec_parse_args(
                    argv@.map_values(|x: Vec<u8>| x@),
                    1,
                    spec_args_default(),
                ) == Ok::<ArgsV, ArgError>(a@),
                Err(e) => spec_parse_args(
                    argv@.map_values(|x: Vec<u8>| x@),
                    1,
                    spec_args_default(),
                ) == Err::<ArgsV, ArgError>(e),
            },
    {
        parse_rest(argv, 1, Args::new())
    }
}

/// The one thing a client invocation does.
#[derive(Debug, Clone, PartialEq, Eq)]
pub enum Command {
    ShowHelp,
    ShowVersion,
    List,
    Kill(Either<u64, Str>, bool),
    Stop(bool),
    Alias(u64, Str),
    Attach(Either<u64, Str>),
    NewSession,
}

impl Args {
    /// The command the parsed flags select, in the fixed precedence: help,
    /// version, list, kill, stop, alias, attach; with no command, a new
    /// session is started.
    pub fn command(self) -> (c: Command)
        ensures
            self.display_help ==> c == Command::ShowHelp,
            !self.display_help && self.display_version ==> c == Command::ShowVersion,
            !self.display_help && !self.display_version && self.do_list ==> c == Command::List,
            !self.display_help && !self.display_version && !self.do_list ==> match self.do_kill {
                Some(t) => c == Command::Kill(t, self.use_force),
                None => !(c matches Command::Kill(_, _)),
            },
            !self.display_help && !self.display_version && !self.do_list && self.do_kill is None
                && self.do_stop ==> c == Command::Stop(self.use_force),
            !self.display_help && !self.display_version && !self.do_list && self.do_kill is None
                && !self.do_stop ==> match self.do_alias {
                Some((sid, name)) => c == Command::Alias(sid, name),
                None => match self.do_attach {
                    Some(t) => c == Command::Attach(t),
                    None => c == Command::NewSession,
                },
            },
    {
        if self.display_help {
            Command::ShowHelp
        } else if self.display_version {
            Command::ShowVersion
        } else if self.do_list {
            Command::List
        } else if let Some(target) = self.do_kill {
            Command::Kill(target, self.use_force)
        } else if self.do_stop {
            Command::Stop(self.use_force)
        } else if let Some((sid, name)) = self.do_alias {
            Command::Alias(sid, name)
        } else if let Some(target) = self.do_attach {
            Command::Attach(target)
        } else {
            Command::NewSession
        }
    }
}

/// Parse from argument `i` on, mirroring the grammar's recursion.
#[verifier::rlimit(100)]
fn parse_rest(argv: &Vec<Vec<u8>>, i: usize, acc: Args) -> (r: Result<Args, ArgError>)
    ensures
        match r {
            Ok(a) => spec_parse_args(argv@.map_values(|x: Vec<u8>| x@), i as int, acc@)
                == Ok::<ArgsV, ArgError>(a@),
            Err(e) => spec_parse_args(argv@.map_values(|x: Vec<u8>| x@), i as int, acc@)
                == Err::<ArgsV, ArgError>(e),
        },
    decreases argv@.len() - i,
{
    let n = argv.len();
    if i >= n {
        return Ok(acc);
    }
    let arg = &argv[i];
    if matches_help(arg.as_slice()) {
        parse_rest(argv, i + 1, Args { display_help: true, ..acc })
    } else if matches_version(arg.as_slice()) {
        parse_rest(argv, i + 1, Args { display_version: true, ..acc })
    } else if eq2(arg.as_slice(), 0x2D, 0x66) || {
        let e: [u8; 7] = [0x2D, 0x2D, 0x66, 0x6F, 0x72, 0x63, 0x65];
        eq_long(arg.as_slice(), e.as_slice())
    } {
        parse_rest(argv, i + 1, Args { use_force: true, ..acc })
    } else if eq2(arg.as_slice(), 0x2D, 0x73) || {
        let e: [u8; 6] = [0x2D, 0x2D, 0x73, 0x74, 0x6F, 0x70];
        eq_long(arg.as_slice(), e.as_slice())
    } {
        parse_rest(argv, i + 1, Args { do_stop: true, ..acc })
    } else if eq2(arg.as_slice(), 0x2D, 0x6C) || {
        let e: [u8; 6] = [0x2D, 0x2D, 0x6C, 0x69, 0x73, 0x74];
        eq_long(arg.as_slice(), e.as_slice())
    } {
        parse_rest(argv, i + 1, Args { do_list: true, ..acc })
    } else if eq2(arg.as_slice(), 0x2D, 0x6B) || {
        let e: [u8; 6] = [0x2D, 0x2D, 0x6B, 0x69, 0x6C, 0x6C];
        eq_long(arg.as_slice(), e.as_slice())
    } {
        if i + 1 >= n {
            Err(ArgError::ExpectedSessionTarget)
        } else {
            let target = parse_target(&argv[i + 1]);
            parse_rest(argv, i + 2, Args { do_kill: Some(target), ..acc })
        }
    } else if eq2(arg.as_slice(), 0x2D, 0x61) || {
        let e: [u8; 8] = [0x2D, 0x2D, 0x61, 0x74, 0x74, 0x61, 0x63, 0x68];
        eq_long(arg.as_slice(), e.as_slice())
    } {
        if i + 1 >= n {
            Err(ArgError::ExpectedSessionTarget)
        } else {
            let target = parse_target(&argv[i + 1]);
            parse_rest(argv, i + 2, Args { do_attach: Some(target), ..acc })
        }
    } else if eq2(arg.as_slice(), 0x2D, 0x41) || {
        let e: [u8; 7] = [0x2D, 0x2D, 0x61, 0x6C, 0x69, 0x61, 0x73];
        eq_long(arg.as_slice(), e.as_slice())
    } {
        if i + 1 >= n {
            Err(ArgError::ExpectedSessionId)
        } else {
            match crate::text::parse_nonzero_u64(argv[i + 1].as_slice()) {
                None => Err(ArgError::SessionIdNotANumber),
                Some(sid) => {
                    if i + 2 >= n {
                        Err(ArgError::ExpectedSessionName)
                    } else {
                        let name = vstd::slice::slice_to_vec(argv[i + 2].as_slice());
                        parse_rest(argv, i + 3, Args { do_alias: Some((sid, name)), ..acc })
                    }
                },
            }
        }
    } else {
        match parse_verbose(arg.as_slice()) {
            None => Err(ArgError::UnexpectedArgument),
            Some(None) => Err(ArgError::UnexpectedShortArgument),
            Some(Some(verbosity)) => {
                if i + 1 >= n {
                    Err(ArgError::ExpectedLogFileName)
                } else if argv[i + 1].len() > 0 && argv[i + 1][0] == 0x2D {
                    Err(ArgError::ExpectedLogFileName)
                } else {
                    let filename = log_name(&argv[i + 1]);
                    parse_rest(argv, i + 2, Args { verbosity: Some((verbosity, filename)), ..acc })
                }
            },
        }
    }
}

} // verus!
