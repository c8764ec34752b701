//! Tests for command-line parsing.

use pyshell::args::{Arg, Args, ArgsError, Flag, Mode};

fn strings(raw: &[&str]) -> Vec<String> {
    let mut out = Vec::new();
    for s in raw {
        out.push((*s).to_string());
    }
    out
}

#[test]
fn short() {
    assert_eq!(
        Args::parse_from(&strings(&[])),
        Ok(Args { mode: Mode::InteractiveShell, flag: Flag::default() })
    );
    assert_eq!(
        Args::parse_from(&strings(&["-qI"])),
        Ok(Args {
            mode: Mode::InteractiveShell,
            flag: {
                let mut f = Flag::default();
                f.quiet = true;
                f.isolate = true;
                f
            }
        })
    );
    assert_eq!(
        Args::parse_from(&strings(&["-qc", "print(1);", "arg1", "arg2"])),
        Ok(Args {
            mode: Mode::Command(
                "print(1);".into(),
                vec!["-c".into(), "arg1".into(), "arg2".into()]
            ),
            flag: {
                let mut f = Flag::default();
                f.quiet = true;
                f
            }
        })
    );
    assert_eq!(
        Args::parse_from(&strings(&["-Iqs", "run.py", "arg1", "arg2"])),
        Ok(Args {
            mode: Mode::ExecFile(vec!["run.py".into(), "arg1".into(), "arg2".into()]),
            flag: {
                let mut f = Flag::default();
                f.quiet = true;
                f.isolate = true;
                f.ignore_site = true;
                f
            }
        })
    );
    assert_eq!(
        Args::parse_from(&strings(&["-c"])),
        Err(ArgsError::ExpectValue(Arg::Command))
    );
    assert_eq!(
        Args::parse_from(&strings(&["-m"])),
        Err(ArgsError::ExpectValue(Arg::Module))
    );
    assert_eq!(
        Args::parse_from(&strings(&["-cq", "arg1", "arg2"])),
        Err(ArgsError::ExpectValue(Arg::Command))
    );
}

#[test]
fn long_flags() {
    assert_eq!(
        Args::parse_from(&strings(&["--quiet"])),
        Ok(Args {
            mode: Mode::InteractiveShell,
            flag: {
                let mut f = Flag::default();
                f.quiet = true;
                f
            }
        })
    );
    assert_eq!(Args::parse_from(&strings(&["--help"])), Err(ArgsError::HelpRequested));
    assert_eq!(Args::parse_from(&strings(&["-h"])), Err(ArgsError::HelpRequested));
    assert_eq!(
        Args::parse_from(&strings(&["--version"])),
        Err(ArgsError::VersionRequested)
    );
    assert_eq!(Args::parse_from(&strings(&["-V"])), Err(ArgsError::VersionRequested));
    assert_eq!(
        Args::parse_from(&strings(&["--nope"])),
        Err(ArgsError::UnknowLong("nope".to_string()))
    );
}

#[test]
fn unknown_and_edge_cases() {
    assert_eq!(Args::parse_from(&strings(&["-z"])), Err(ArgsError::UnknowShort('z')));
    assert_eq!(Args::parse_from(&strings(&["-"])), Err(ArgsError::UnknowShort('\0')));
    // An empty argument is skipped.
    assert_eq!(
        Args::parse_from(&strings(&["", "-q"])),
        Ok(Args {
            mode: Mode::InteractiveShell,
            flag: {
                let mut f = Flag::default();
                f.quiet = true;
                f
            }
        })
    );
    assert_eq!(
        Args::parse_from(&strings(&["-m", "json.tool", "x"])),
        Ok(Args {
            mode: Mode::ExecModule(vec!["json.tool".into(), "x".into()]),
            flag: Flag::default()
        })
    );
    // Flags after the positional are passed through, not parsed.
    assert_eq!(
        Args::parse_from(&strings(&["run.py", "-q"])),
        Ok(Args {
            mode: Mode::ExecFile(vec!["run.py".into(), "-q".into()]),
            flag: Flag::default()
        })
    );
}

#[test]
fn arg_text_spelling() {
    assert_eq!(Arg::Module.text(), "-m".to_string());
    assert_eq!(Arg::Command.text(), "-c".to_string());
}
