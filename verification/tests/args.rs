use helix_daemon::client_args::{ArgError, Args, Command, Either};
use helix_daemon::daemon_args;
use helix_daemon::proto::SessionId;
use helix_daemon::text::{format_u64, parse_nonzero_u64, session_label, socket_file_name};
use helix_daemon::{verbosity_level, LogLevel};

fn argv(args: &[&str]) -> Vec<Vec<u8>> {
    let mut v = vec![b"hxc".to_vec()];
    for a in args {
        v.push(a.as_bytes().to_vec());
    }
    v
}

#[test]
fn no_flags_starts_a_new_session() {
    let args = Args::parse_args(&argv(&[])).unwrap();
    assert!(!args.display_help && !args.do_list && !args.do_stop);
    assert_eq!(args.command(), Command::NewSession);
}

#[test]
fn list_flag() {
    let args = Args::parse_args(&argv(&["-l"])).unwrap();
    assert!(args.do_list);
    assert_eq!(args.command(), Command::List);
    let args = Args::parse_args(&argv(&["--list"])).unwrap();
    assert!(args.do_list);
}

#[test]
fn kill_takes_an_id_or_a_name() {
    let args = Args::parse_args(&argv(&["-k", "1"])).unwrap();
    assert_eq!(args.do_kill, Some(Either::This(1)));
    let args = Args::parse_args(&argv(&["--kill", "work"])).unwrap();
    assert_eq!(args.do_kill, Some(Either::That(b"work".to_vec())));
    assert_eq!(Args::parse_args(&argv(&["-k"])), Err(ArgError::ExpectedSessionTarget));
    // an id must be nonzero: zero falls back to being a name
    let args = Args::parse_args(&argv(&["-k", "0"])).unwrap();
    assert_eq!(args.do_kill, Some(Either::That(b"0".to_vec())));
}

#[test]
fn attach_takes_an_id_or_a_name() {
    let args = Args::parse_args(&argv(&["-a", "2", "-f"])).unwrap();
    assert_eq!(args.do_attach, Some(Either::This(2)));
    assert!(args.use_force);
    assert_eq!(args.command(), Command::Attach(Either::This(2)));
}

#[test]
fn alias_takes_an_id_then_a_name() {
    let args = Args::parse_args(&argv(&["-A", "1", "work"])).unwrap();
    assert_eq!(args.do_alias, Some((1, b"work".to_vec())));
    assert_eq!(Args::parse_args(&argv(&["-A", "work"])), Err(ArgError::SessionIdNotANumber));
    assert_eq!(Args::parse_args(&argv(&["-A", "1"])), Err(ArgError::ExpectedSessionName));
    assert_eq!(Args::parse_args(&argv(&["-A"])), Err(ArgError::ExpectedSessionId));
}

#[test]
fn stop_with_force() {
    let args = Args::parse_args(&argv(&["-s", "-f"])).unwrap();
    assert!(args.do_stop && args.use_force);
    assert_eq!(args.command(), Command::Stop(true));
}

#[test]
fn verbosity_takes_a_log_file() {
    let args = Args::parse_args(&argv(&["-vv", "mylog"])).unwrap();
    assert_eq!(args.verbosity, Some((2, b"mylog.log".to_vec())));
    // a name that already ends in .log is kept as it is
    let args = Args::parse_args(&argv(&["-v", "mylog.log"])).unwrap();
    assert_eq!(args.verbosity, Some((1, b"mylog.log".to_vec())));
    assert_eq!(Args::parse_args(&argv(&["-vx", "f"])), Err(ArgError::UnexpectedShortArgument));
    assert_eq!(Args::parse_args(&argv(&["-v"])), Err(ArgError::ExpectedLogFileName));
    assert_eq!(Args::parse_args(&argv(&["-v", "-f"])), Err(ArgError::ExpectedLogFileName));
}

#[test]
fn unknown_arguments_are_refused() {
    assert_eq!(Args::parse_args(&argv(&["files.txt"])), Err(ArgError::UnexpectedArgument));
    assert_eq!(Args::parse_args(&argv(&["-z"])), Err(ArgError::UnexpectedArgument));
}

#[test]
fn command_precedence_is_fixed() {
    // help beats everything
    let args = Args::parse_args(&argv(&["-k", "1", "--help"])).unwrap();
    assert_eq!(args.command(), Command::ShowHelp);
    // list beats kill, whatever the argument order
    let args = Args::parse_args(&argv(&["-k", "1", "-l"])).unwrap();
    assert_eq!(args.command(), Command::List);
    // kill beats stop
    let args = Args::parse_args(&argv(&["-s", "-k", "1"])).unwrap();
    assert_eq!(args.command(), Command::Kill(Either::This(1), false));
}

#[test]
fn either_unwrapping() {
    let this: Either<u64, Vec<u8>> = Either::This(5);
    assert_eq!(this.unwrap_this(), 5);
    let that: Either<u64, Vec<u8>> = Either::That(b"name".to_vec());
    assert_eq!(that.unwrap_that(), b"name".to_vec());
}

#[test]
fn daemon_args_parse() {
    fn dargv(args: &[&str]) -> Vec<Vec<u8>> {
        let mut v = vec![b"hxd".to_vec()];
        for a in args {
            v.push(a.as_bytes().to_vec());
        }
        v
    }
    let args = daemon_args::Args::parse_args(&dargv(&[])).unwrap();
    assert_eq!(args.verbosity, 0);
    let args = daemon_args::Args::parse_args(&dargv(&["-vvv"])).unwrap();
    assert_eq!(args.verbosity, 3);
    let args = daemon_args::Args::parse_args(&dargv(&["--version"])).unwrap();
    assert!(args.display_version);
    assert_eq!(
        daemon_args::Args::parse_args(&dargv(&["-x"])),
        Err(ArgError::UnexpectedArgument)
    );
    assert_eq!(
        daemon_args::Args::parse_args(&dargv(&["-vq"])),
        Err(ArgError::UnexpectedShortArgument)
    );
}

#[test]
fn verbosity_selects_the_level() {
    assert_eq!(verbosity_level(0), LogLevel::Warn);
    assert_eq!(verbosity_level(1), LogLevel::Info);
    assert_eq!(verbosity_level(2), LogLevel::Debug);
    assert_eq!(verbosity_level(3), LogLevel::Trace);
    assert_eq!(verbosity_level(9), LogLevel::Trace);
}

#[test]
fn nonzero_u64_grammar() {
    assert_eq!(parse_nonzero_u64(b"1"), Some(1));
    assert_eq!(parse_nonzero_u64(b"+5"), Some(5));
    assert_eq!(parse_nonzero_u64(b"18446744073709551615"), Some(u64::MAX));
    assert_eq!(parse_nonzero_u64(b"18446744073709551616"), None);
    assert_eq!(parse_nonzero_u64(b"0"), None);
    assert_eq!(parse_nonzero_u64(b""), None);
    assert_eq!(parse_nonzero_u64(b"+"), None);
    assert_eq!(parse_nonzero_u64(b"12a"), None);
    assert_eq!(parse_nonzero_u64(b"work"), None);
}

#[test]
fn decimal_and_labels() {
    assert_eq!(format_u64(0), b"0".to_vec());
    assert_eq!(format_u64(42), b"42".to_vec());
    assert_eq!(format_u64(u64::MAX), b"18446744073709551615".to_vec());
    assert_eq!(session_label(SessionId(42)), b"session(42)".to_vec());
    assert_eq!(socket_file_name(b"1.0.0"), b"hxd-1.0.0.sock".to_vec());
}
