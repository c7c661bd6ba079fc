//! The command that runs a relay, as far as its arguments decide what runs.

use vstd::prelude::*;

verus! {

/// The subcommands of the relay command.
#[derive(Debug)]
pub enum Commands {
    /// Runs the relay in mock mode with the given configuration file.
    Mock { config_file: String },
}

/// The arguments of the relay command: a configuration file, or a
/// subcommand that names its own.
#[derive(Debug)]
pub struct Command {
    pub config_file: Option<String>,
    pub command: Option<Commands>,
}

impl Command {
    /// What the argument parser sees to: without a subcommand, the
    /// configuration file is given.
    pub open spec fn wf(&self) -> bool {
        self.command is None ==> self.config_file is Some
    }

    /// The configuration file to run with, and whether mock mode is asked
    /// for: the file of the subcommand where there is one, else the file of
    /// the command itself.
    pub open spec fn selection(&self) -> (String, bool) {
        match self.command {
            Some(Commands::Mock { config_file }) => (config_file, true),
            None => (self.config_file->0, false),
        }
    }

    /// Selects the configuration file and the mode that the command runs in.
    pub fn select(&self) -> (r: (&String, bool))
        requires
            self.wf(),
        ensures
            *r.0 == self.selection().0,
            r.1 == self.selection().1,
    {
        if let Some(subcommand) = self.command.as_ref() {
            match subcommand {
                Commands::Mock { config_file } => (config_file, true),
            }
        } else {
            (self.config_file.as_ref().unwrap(), false)
        }
    }
}

} // verus!
