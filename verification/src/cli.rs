//! The command line: one of five commands.

use vstd::prelude::*;
use crate::exec::ExecArgs;
use crate::ls::LsArgs;
use crate::rm::RmArgs;
use crate::rmi::RmiArgs;
use crate::run::RunArgs;

verus! {

/// A command of the engine with its arguments.
#[derive(Debug)]
pub enum Command {
    /// Pull an image and run a command in a new container.
    Run(RunArgs),
    /// Run a command in a container that stands.
    Exec(ExecArgs),
    /// Remove containers.
    Rm(RmArgs),
    /// Show the containers and the images.
    Ls(LsArgs),
    /// Remove the cached layers of images.
    Rmi(RmiArgs),
}

/// The parsed command line.
#[derive(Debug)]
pub struct Cli {
    pub sub_command: Command,
}

impl Cli {
    /// The container that the command takes for itself, if it takes one: the
    /// one whose pid file is read before the command is decided on.
    pub fn container(&self) -> (r: Option<&String>)
        ensures
            match self.sub_command {
                Command::Run(args) => r == Some(&args.name),
                Command::Exec(args) => r == Some(&args.container),
                _ => r is None,
            },
    {
        match &self.sub_command {
            Command::Run(args) => Some(&args.name),
            Command::Exec(args) => Some(&args.container),
            _ => None,
        }
    }
}

} // verus!
