//! The command line's arguments, as plain values.

use vstd::prelude::*;
use crate::commands::{CheckRule, CleanRule, SuppressibleRule};

verus! {

/// Options every command takes.
#[derive(Debug, Clone)]
pub struct CommonArgs {
    /// The primary locale, overriding the configuration.
    pub primary_locale: Option<String>,
    /// The root of the source files, overriding the configuration.
    pub source_root: Option<String>,
    /// The directory of the message files, overriding the configuration.
    pub messages_root: Option<String>,
    pub verbose: bool,
}

#[derive(Debug)]
pub struct CheckArgs {
    pub common: CommonArgs,
}

/// `glot check [CHECKS...]`
#[derive(Debug)]
pub struct CheckCommand {
    /// The checks to run; all when empty.
    pub checks: Vec<CheckRule>,
    pub args: CheckArgs,
}

#[derive(Debug)]
pub struct CleanArgs {
    pub common: CommonArgs,
    /// Delete the keys (without it, only show what would be deleted).
    pub apply: bool,
    /// The kinds of keys to delete; all when empty.
    pub rules: Vec<CleanRule>,
}

/// `glot clean`
#[derive(Debug)]
pub struct CleanCommand {
    pub args: CleanArgs,
}

#[derive(Debug)]
pub struct BaselineArgs {
    pub common: CommonArgs,
    /// Insert the comments (without it, only show what would be inserted).
    pub apply: bool,
    /// The kinds of issues to suppress; all when empty.
    pub rules: Vec<SuppressibleRule>,
}

/// `glot baseline`
#[derive(Debug)]
pub struct BaselineCommand {
    pub args: BaselineArgs,
}

#[derive(Debug)]
pub struct FixArgs {
    pub common: CommonArgs,
    /// Insert the comments (without it, only show what would be inserted).
    pub apply: bool,
}

/// `glot fix`
#[derive(Debug)]
pub struct FixCommand {
    pub args: FixArgs,
}

/// The subcommands.
#[derive(Debug)]
pub enum Command {
    Check(CheckCommand),
    Clean(CleanCommand),
    Baseline(BaselineCommand),
    Fix(FixCommand),
    Init,
    Serve,
}

/// The whole command line.
#[derive(Debug)]
pub struct Arguments {
    pub command: Option<Command>,
}

impl Arguments {
    /// Whether the command asks for verbose output.
    pub open spec fn spec_verbose(&self) -> bool {
        match self.command {
            Some(Command::Check(cmd)) => cmd.args.common.verbose,
            Some(Command::Clean(cmd)) => cmd.args.common.verbose,
            Some(Command::Baseline(cmd)) => cmd.args.common.verbose,
            Some(Command::Fix(cmd)) => cmd.args.common.verbose,
            _ => false,
        }
    }

    /// Whether the command asks for verbose output (`init`, `serve` and no
    /// command never do).
    pub fn verbose(&self) -> (r: bool)
        ensures
            r == self.spec_verbose(),
    {
        match &self.command {
            Some(Command::Check(cmd)) => cmd.args.common.verbose,
            Some(Command::Clean(cmd)) => cmd.args.common.verbose,
            Some(Command::Baseline(cmd)) => cmd.args.common.verbose,
            Some(Command::Fix(cmd)) => cmd.args.common.verbose,
            _ => false,
        }
    }

    /// The arguments when they name a command; without one there is nothing
    /// to run (and the caller shows the help).
    pub fn with_command_or_help(self) -> (r: Option<Self>)
        ensures
            self.command is Some ==> r == Some(self),
            self.command is None ==> r is None,
    {
        if self.command.is_none() {
            None
        } else {
            Some(self)
        }
    }
}

} // verus!
