//! Command-line argument parsing: flags, the execution mode, and the values
//! handed on to the interpreted program. The caller passes the arguments
//! after the program name, already decoded to strings; printing help or
//! version text and exiting are the caller's side of the boundary, requested
//! through the corresponding error values.

use vstd::prelude::*;
use vstd::string::StrSliceExecFns;

verus! {

/// How the program runs: an interactive shell, a script file, a library
/// module, or a command string. Every mode but the shell carries the
/// arguments passed on to the interpreted program.
#[derive(Debug, Default, PartialEq, Eq, PartialOrd, Ord)]
pub enum Mode {
    /// Start in interactive shell mode
    #[default]
    InteractiveShell,
    /// Execute a file with arguments
    ExecFile(Vec<String>),
    /// Execute a module with arguments
    ExecModule(Vec<String>),
    /// Execute a command
    Command(String, Vec<String>),
}

/// The mathematical shadow of a mode.
pub enum ModeView {
    Shell,
    File(Seq<Seq<char>>),
    Module(Seq<Seq<char>>),
    Command(Seq<char>, Seq<Seq<char>>),
}

impl View for Mode {
    type V = ModeView;

    open spec fn view(&self) -> ModeView {
        match self {
            Mode::InteractiveShell => ModeView::Shell,
            Mode::ExecFile(v) => ModeView::File(v.deep_view()),
            Mode::ExecModule(v) => ModeView::Module(v.deep_view()),
            Mode::Command(c, v) => ModeView::Command(c@, v.deep_view()),
        }
    }
}

/// A short option that expects a value in the next argument.
#[derive(Debug, Clone, Copy, PartialEq, Eq, PartialOrd, Ord)]
pub enum Arg {
    Module,
    Command,
}

impl Arg {
    /// The option's spelling on the command line.
    pub fn text(&self) -> (s: String)
        ensures
            (self matches Arg::Module ==> s@ == "-m"@),
            (self matches Arg::Command ==> s@ == "-c"@),
    {
        match self {
            Arg::Module => "-m".to_owned(),
            Arg::Command => "-c".to_owned(),
        }
    }
}

/// Why parsing stopped without producing a configuration. Help and version
/// requests abort parsing too: the caller prints the text and exits.
#[derive(Debug, PartialEq, Eq, PartialOrd, Ord)]
pub enum ArgsError {
    /// An unknown one-letter flag.
    UnknowShort(char),
    /// An unknown long flag.
    UnknowLong(String),
    /// An option expected a value but none followed.
    ExpectValue(Arg),
    /// The help text was requested.
    HelpRequested,
    /// The version line was requested.
    VersionRequested,
}

/// The mathematical shadow of a parse error.
pub enum ArgsErrorView {
    Short(char),
    Long(Seq<char>),
    Expect(Arg),
    Help,
    Version,
}

impl View for ArgsError {
    type V = ArgsErrorView;

    open spec fn view(&self) -> ArgsErrorView {
        match self {
            ArgsError::UnknowShort(c) => ArgsErrorView::Short(*c),
            ArgsError::UnknowLong(s) => ArgsErrorView::Long(s@),
            ArgsError::ExpectValue(a) => ArgsErrorView::Expect(*a),
            ArgsError::HelpRequested => ArgsErrorView::Help,
            ArgsError::VersionRequested => ArgsErrorView::Version,
        }
    }
}

/// The boolean flags a command line can set.
#[derive(Debug, Default, Clone, Copy, PartialEq, Eq, PartialOrd, Ord)]
pub struct Flag {
    /// execute in quiet mode (effect in file mode)
    pub quiet: bool,
    /// isolate the interpreter from the user's environment
    pub isolate: bool,
    /// don't add the user site directory to the module search path
    pub ignore_site: bool,
    /// ignore interpreter-specific environment variables
    pub ignore_env: bool,
}

/// A parsed command line: the mode to run in and the flags.
#[derive(Debug, Default, PartialEq, Eq, PartialOrd, Ord)]
pub struct Args {
    pub mode: Mode,
    pub flag: Flag,
}

/// All flags off.
pub open spec fn no_flags() -> Flag {
    Flag { quiet: false, isolate: false, ignore_site: false, ignore_env: false }
}

/// One short option applied to the parser state: either the state with the
/// option folded in, or the error that stops parsing.
pub open spec fn short_step(c: char, f: Flag, la: Option<Arg>) -> Result<
    (Flag, Option<Arg>),
    ArgsErrorView,
> {
    match la {
        Some(a) => Err(ArgsErrorView::Expect(a)),
        None => if c == 'm' {
            Ok((f, Some(Arg::Module)))
        } else if c == 'c' {
            Ok((f, Some(Arg::Command)))
        } else if c == 'q' {
            Ok(((Flag { quiet: true, ..f }), None::<Arg>))
        } else if c == 'I' {
            Ok(((Flag { isolate: true, ..f }), None::<Arg>))
        } else if c == 's' {
            Ok(((Flag { ignore_site: true, ..f }), None::<Arg>))
        } else if c == 'E' {
            Ok(((Flag { ignore_env: true, ..f }), None::<Arg>))
        } else if c == 'h' {
            Err(ArgsErrorView::Help)
        } else if c == 'V' {
            Err(ArgsErrorView::Version)
        } else {
            Err(ArgsErrorView::Short(c))
        },
    }
}

/// A run of short options applied in order; the first error stops.
pub open spec fn shorts_steps(cs: Seq<char>, f: Flag, la: Option<Arg>) -> Result<
    (Flag, Option<Arg>),
    ArgsErrorView,
>
    decreases cs.len(),
{
    if cs.len() == 0 {
        Ok((f, la))
    } else {
        match short_step(cs.first(), f, la) {
            Ok((f2, la2)) => shorts_steps(cs.drop_first(), f2, la2),
            Err(e) => Err(e),
        }
    }
}

/// One long option applied to the parser state.
pub open spec fn long_step(s: Seq<char>, f: Flag, la: Option<Arg>) -> Result<
    (Flag, Option<Arg>),
    ArgsErrorView,
> {
    match la {
        Some(a) => Err(ArgsErrorView::Expect(a)),
        None => if s == "quiet"@ {
            Ok(((Flag { quiet: true, ..f }), None::<Arg>))
        } else if s == "help"@ {
            Err(ArgsErrorView::Help)
        } else if s == "version"@ {
            Err(ArgsErrorView::Version)
        } else {
            Err(ArgsErrorView::Long(s))
        },
    }
}

/// The parse of the arguments from index `i` on, with the flags and pending
/// option accumulated so far. The first argument that does not begin with a
/// dash selects the mode and ends option parsing; everything after it is
/// passed through to the interpreted program.
pub open spec fn parse_loop(args: Seq<Seq<char>>, i: int, f: Flag, la: Option<Arg>) -> Result<
    (ModeView, Flag),
    ArgsErrorView,
>
    decreases args.len() - i,
{
    if i < 0 || i >= args.len() {
        match la {
            Some(a) => Err(ArgsErrorView::Expect(a)),
            None => Ok((ModeView::Shell, f)),
        }
    } else {
        let a = args[i];
        if a.len() == 0 {
            parse_loop(args, i + 1, f, la)
        } else if a.first() == '-' {
            if a.len() == 1 {
                Err(ArgsErrorView::Short('\0'))
            } else if a[1] == '-' {
                match long_step(a.skip(2), f, la) {
                    Ok((f2, la2)) => parse_loop(args, i + 1, f2, la2),
                    Err(e) => Err(e),
                }
            } else {
                match shorts_steps(a.skip(1), f, la) {
                    Ok((f2, la2)) => parse_loop(args, i + 1, f2, la2),
                    Err(e) => Err(e),
                }
            }
        } else {
            match la {
                None => Ok((ModeView::File(seq![a] + args.skip(i + 1)), f)),
                Some(Arg::Module) => Ok((ModeView::Module(seq![a] + args.skip(i + 1)), f)),
                Some(Arg::Command) => Ok(
                    (ModeView::Command(a, seq!["-c"@] + args.skip(i + 1)), f),
                ),
            }
        }
    }
}

/// The parse of a whole command line, starting from no flags and no pending
/// option.
pub open spec fn parse_spec(args: Seq<Seq<char>>) -> Result<(ModeView, Flag), ArgsErrorView> {
    parse_loop(args, 0, no_flags(), None::<Arg>)
}

/// Character-for-character string equality.
fn str_eq(a: &str, b: &str) -> (r: bool)
    ensures
        r == (a@ == b@),
{
    let na = a.unicode_len();
    let nb = b.unicode_len();
    if na != nb {
        return false;
    }
    let mut i: usize = 0;
    while i < na
        invariant
            i <= na == a@.len(),
            na == nb == b@.len(),
            forall|m: int| 0 <= m < i ==> a@[m] == b@[m],
        decreases na - i,
    {
        if a.get_char(i) != b.get_char(i) {
            return false;
        }
        i = i + 1;
    }
    proof {
        assert(a@ =~= b@);
    }
    true
}

impl Args {
    /// Apply one long option (the text after `--`) to the parser state.
    pub fn match_long(s: &str, flag: &mut Flag, last_arg: &mut Option<Arg>) -> (r: Result<
        (),
        ArgsError,
    >)
        ensures
            match (r, long_step(s@, *old(flag), *old(last_arg))) {
                (Ok(()), Ok((f2, la2))) => *final (flag) == f2 && *final (last_arg) == la2,
                (Err(e), Err(ev)) => e@ == ev && *final (flag) == *old(flag) && *final (last_arg)
                    == *old(last_arg),
                _ => false,
            },
    {
        match *last_arg {
            Some(last) => Err(ArgsError::ExpectValue(last)),
            None => if str_eq(s, "quiet") {
                flag.quiet = true;
                *last_arg = None;
                Ok(())
            } else if str_eq(s, "help") {
                Err(ArgsError::HelpRequested)
            } else if str_eq(s, "version") {
                Err(ArgsError::VersionRequested)
            } else {
                Err(ArgsError::UnknowLong(s.to_owned()))
            },
        }
    }

    /// Apply one short option letter to the parser state.
    pub fn match_short(c: char, flag: &mut Flag, last_arg: &mut Option<Arg>) -> (r: Result<
        (),
        ArgsError,
    >)
        ensures
            match (r, short_step(c, *old(flag), *old(last_arg))) {
                (Ok(()), Ok((f2, la2))) => *final (flag) == f2 && *final (last_arg) == la2,
                (Err(e), Err(ev)) => e@ == ev && *final (flag) == *old(flag) && *final (last_arg)
                    == *old(last_arg),
                _ => false,
            },
    {
        match *last_arg {
            Some(last) => Err(ArgsError::ExpectValue(last)),
            None => match c {
                'm' => {
                    *last_arg = Some(Arg::Module);
                    Ok(())
                },
                'c' => {
                    *last_arg = Some(Arg::Command);
                    Ok(())
                },
                'q' => {
                    flag.quiet = true;
                    *last_arg = None;
                    Ok(())
                },
                'I' => {
                    flag.isolate = true;
                    *last_arg = None;
                    Ok(())
                },
                's' => {
                    flag.ignore_site = true;
                    *last_arg = None;
                    Ok(())
                },
                'E' => {
                    flag.ignore_env = true;
                    *last_arg = None;
                    Ok(())
                },
                'h' => Err(ArgsError::HelpRequested),
                'V' => Err(ArgsError::VersionRequested),
                _ => Err(ArgsError::UnknowShort(c)),
            },
        }
    }

    /// Parse the arguments that follow the program name.
    pub fn parse_from(args: &Vec<String>) -> (r: Result<Args, ArgsError>)
        ensures
            match (r, parse_spec(args.deep_view())) {
                (Ok(a), Ok((mv, fv))) => a.mode@ == mv && a.flag == fv,
                (Err(e), Err(ev)) => e@ == ev,
                _ => false,
            },
    {
        let ghost gargs = args.deep_view();
        let mut flag = Flag { quiet: false, isolate: false, ignore_site: false, ignore_env: false };
        let mut last_arg: Option<Arg> = None;
        let mut i: usize = 0;
        let n = args.len();
        proof {
            assert(gargs.len() == n);
        }
        while i < n
            invariant
                i <= n == gargs.len(),
                gargs == args.deep_view(),
                parse_spec(gargs) == parse_loop(gargs, i as int, flag, last_arg),
            decreases n - i,
        {
            let ghost f0 = flag;
            let ghost la0 = last_arg;
            proof {
                assert(gargs[i as int] == args@[i as int]@);
            }
            let a = args[i].as_str();
            let alen = a.unicode_len();
            if alen == 0 {
                proof {
                    assert(parse_loop(gargs, i as int, flag, last_arg) == parse_loop(
                        gargs,
                        i + 1,
                        flag,
                        last_arg,
                    ));
                }
                i = i + 1;
                continue ;
            }
            if a.get_char(0) == '-' {
                if alen == 1 {
                    return Err(ArgsError::UnknowShort('\0'));
                }
                if a.get_char(1) == '-' {
                    let rest = a.substring_char(2, alen);
                    proof {
                        assert(rest@ =~= gargs[i as int].skip(2));
                    }
                    match Args::match_long(rest, &mut flag, &mut last_arg) {
                        Ok(()) => {},
                        Err(e) => {
                            proof {
                                assert(long_step(gargs[i as int].skip(2), f0, la0) == Err::<(Flag, Option<Arg>), ArgsErrorView>(e@));
                                assert(parse_loop(gargs, i as int, f0, la0) == Err::<(ModeView, Flag), ArgsErrorView>(e@));
                            }
                            return Err(e);
                        },
                    }
                } else {
                    let mut j: usize = 1;
                    proof {
                        assert(gargs[i as int].skip(1) =~= a@.skip(1));
                    }
                    while j < alen
                        invariant
                            1 <= j <= alen,
                            0 <= i < gargs.len(),
                            gargs == args.deep_view(),
                            a@ == gargs[i as int],
                            alen == a@.len(),
                            a@.first() == '-',
                            a@[1] != '-',
                            parse_spec(gargs) == parse_loop(gargs, i as int, f0, la0),
                            shorts_steps(a@.skip(1), f0, la0) == shorts_steps(
                                a@.skip(j as int),
                                flag,
                                last_arg,
                            ),
                        decreases alen - j,
                    {
                        proof {
                            assert(a@.skip(j as int).first() == a@[j as int]);
                            assert(a@.skip(j as int).drop_first() =~= a@.skip(j + 1));
                        }
                        let c = a.get_char(j);
                        match Args::match_short(c, &mut flag, &mut last_arg) {
                            Ok(()) => {},
                            Err(e) => {
                                proof {
                                    assert(shorts_steps(a@.skip(1), f0, la0) == Err::<(Flag, Option<Arg>), ArgsErrorView>(e@));
                                    assert(parse_loop(gargs, i as int, f0, la0) == Err::<(ModeView, Flag), ArgsErrorView>(e@));
                                }
                                return Err(e);
                            },
                        }
                        j = j + 1;
                    }
                    proof {
                        assert(a@.skip(alen as int) =~= Seq::<char>::empty());
                    }
                }
            } else {
                let mut rest: Vec<String> = Vec::new();
                match last_arg {
                    None => {
                        rest.push(a.to_owned());
                    },
                    Some(Arg::Module) => {
                        rest.push(a.to_owned());
                    },
                    Some(Arg::Command) => {
                        rest.push("-c".to_owned());
                    },
                }
                let ghost rest_head = rest.deep_view();
                proof {
                    match la0 {
                        None => {
                            assert(rest_head =~= seq![gargs[i as int]]);
                        },
                        Some(Arg::Module) => {
                            assert(rest_head =~= seq![gargs[i as int]]);
                        },
                        Some(Arg::Command) => {
                            assert(rest_head =~= seq!["-c"@]);
                        },
                    }
                    assert(rest.deep_view() =~= rest_head + gargs.subrange(i + 1, i + 1));
                }
                let mut m: usize = i + 1;
                while m < n
                    invariant
                        i + 1 <= m <= n == gargs.len(),
                        gargs == args.deep_view(),
                        rest.deep_view() == rest_head + gargs.subrange(i + 1, m as int),
                    decreases n - m,
                {
                    proof {
                        assert(gargs[m as int] == args@[m as int]@);
                    }
                    let ghost prev = rest.deep_view();
                    let nxt = args[m].as_str().to_owned();
                    proof {
                        assert(nxt@ == gargs[m as int]);
                    }
                    rest.push(nxt);
                    proof {
                        assert(rest.deep_view() =~= prev.push(gargs[m as int]));
                        assert(prev.push(gargs[m as int]) =~= rest_head + gargs.subrange(
                            i + 1,
                            m + 1,
                        ));
                    }
                    m = m + 1;
                }
                proof {
                    assert(gargs.subrange(i + 1, n as int) =~= gargs.skip(i + 1));
                }
                let mode = match last_arg {
                    None => Mode::ExecFile(rest),
                    Some(Arg::Module) => Mode::ExecModule(rest),
                    Some(Arg::Command) => Mode::Command(a.to_owned(), rest),
                };
                return Ok(Args { mode, flag });
            }
            proof {
                assert(parse_loop(gargs, i as int, f0, la0) == parse_loop(
                    gargs,
                    i + 1,
                    flag,
                    last_arg,
                ));
            }
            i = i + 1;
        }
        match last_arg {
            Some(a) => Err(ArgsError::ExpectValue(a)),
            None => Ok(Args { mode: Mode::InteractiveShell, flag }),
        }
    }
}

} // verus!
