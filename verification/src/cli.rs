//! The daemon's command line.
use vstd::prelude::*;

use crate::text::{owned, same_text};

verus! {

/// What the command line asks for.
#[derive(Debug, Clone)]
pub struct CliOptions {
    pub config_path: String,
    pub run_once: bool,
    pub service_install: bool,
}

/// A command line that cannot be followed.
#[derive(Debug, Clone, Copy, PartialEq, Eq, Structural)]
pub enum CliError {
    /// `--config` is the last argument.
    MissingConfigValue,
}

/// Reads the arguments from position `i` on, starting from `path`, `once`
/// and `install`: `--once` runs one poll, `service-install` installs the
/// service, `--config <path>` and any other argument name the
/// configuration file (the last one wins).
pub open spec fn cli_fold(
    args: Seq<Seq<char>>,
    i: int,
    path: Seq<char>,
    once: bool,
    install: bool,
) -> Option<(Seq<char>, bool, bool)>
    decreases args.len() - i,
{
    if i < 0 || i >= args.len() {
        Some((path, once, install))
    } else if args[i] == "--once"@ {
        cli_fold(args, i + 1, path, true, install)
    } else if args[i] == "service-install"@ {
        cli_fold(args, i + 1, path, once, true)
    } else if args[i] == "--config"@ {
        if i + 1 < args.len() {
            cli_fold(args, i + 2, args[i + 1], once, install)
        } else {
            None
        }
    } else {
        cli_fold(args, i + 1, args[i], once, install)
    }
}

/// The texts of the arguments.
pub open spec fn arg_texts(args: Seq<String>) -> Seq<Seq<char>> {
    args.map_values(|s: String| s@)
}

/// Reads the arguments that follow the program name; the configuration
/// file defaults to `feathertail.toml`.
pub fn parse_args(args: &Vec<String>) -> (r: Result<CliOptions, CliError>)
    ensures
        match cli_fold(arg_texts(args@), 0, "feathertail.toml"@, false, false) {
            Some((path, once, install)) => r matches Ok(o) && o.config_path@ == path && o.run_once
                == once && o.service_install == install,
            None => r == Err::<CliOptions, CliError>(CliError::MissingConfigValue),
        },
{
    let ghost a = arg_texts(args@);
    let mut config_path = owned("feathertail.toml");
    let mut run_once = false;
    let mut service_install = false;
    let mut i: usize = 0;
    while i < args.len()
        invariant
            0 <= i <= args.len(),
            a == arg_texts(args@),
            cli_fold(a, 0, "feathertail.toml"@, false, false) == cli_fold(
                a,
                i as int,
                config_path@,
                run_once,
                service_install,
            ),
        decreases args.len() - i,
    {
        assert(a[i as int] == args@[i as int]@);
        if same_text(args[i].as_str(), "--once") {
            run_once = true;
            i = i + 1;
        } else if same_text(args[i].as_str(), "service-install") {
            service_install = true;
            i = i + 1;
        } else if same_text(args[i].as_str(), "--config") {
            if i + 1 < args.len() {
                assert(a[i + 1] == args@[i + 1]@);
                config_path = args[i + 1].clone();
                i = i + 2;
            } else {
                return Err(CliError::MissingConfigValue);
            }
        } else {
            config_path = args[i].clone();
            i = i + 1;
        }
    }
    Ok(CliOptions { config_path, run_once, service_install })
}

impl CliError {
    /// The message printed before exiting.
    pub fn message(&self) -> (r: String)
        ensures
            r@ == "missing value for --config"@,
    {
        owned("missing value for --config")
    }

    /// The process exit status.
    pub fn exit_code(&self) -> (r: i32)
        ensures
            r == 2,
    {
        2
    }
}

} // verus!
