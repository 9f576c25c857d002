//! The `exec` command: take a container whose root file system stands, and
//! run a command in it.

use vstd::prelude::*;
use crate::error::Error;
use crate::plan::{step_views, Step, StepView};
use crate::text::{decimal, views, Text};
use crate::{
    acquire, held_by, pid_file_path, pid_file_path_spec, root_fs_path, root_fs_path_spec,
    write_pid,
};

verus! {

/// The arguments of `exec`.
#[derive(Debug)]
pub struct ExecArgs {
    /// The name of the container.
    pub container: String,
    /// The command to run in the container.
    pub command: String,
    /// The arguments of the command.
    pub command_args: Vec<String>,
    /// Whether to take the container from a live process.
    pub force: bool,
}

/// The steps of `exec` for the process `own_pid`, once the container is
/// taken: record the pid, and run the command in the root file system as it
/// stands.
pub open spec fn exec_steps(container: Text, command: Text, args: Seq<Text>, own_pid: nat) -> Seq<
    StepView,
> {
    seq![
        StepView::WriteFile { path: pid_file_path_spec(container), contents: decimal(own_pid) },
        StepView::Execute { command, args, root: root_fs_path_spec(container) },
    ]
}

impl ExecArgs {
    /// Decides on an `exec`.
    ///
    /// `recorded` is the pid in the pid file of the container, if there is
    /// one; `alive` says whether that process runs; `own_pid` is the pid of
    /// the caller. The command is refused with `ContainerBusy` where a live
    /// process holds the container and `force` is off. Else the pid file is
    /// written anew and the command is run.
    pub fn run(self, recorded: Option<usize>, alive: bool, own_pid: usize) -> (r: Result<
        Vec<Step>,
        Error,
    >)
        ensures
            match held_by(recorded, alive, self.force) {
                Some(pid) => r matches Err(e) && e == Error::ContainerBusy(pid),
                None => r matches Ok(steps) && step_views(steps@) == exec_steps(
                    self.container@,
                    self.command@,
                    views(self.command_args@),
                    own_pid as nat,
                ),
            },
    {
        match acquire(recorded, alive, self.force) {
            Err(e) => {
                return Err(e);
            },
            Ok(_) => {},
        }
        let name = self.container.as_str();
        let mut steps: Vec<Step> = Vec::new();
        steps.push(Step::WriteFile { path: pid_file_path(name), contents: write_pid(own_pid) });
        steps.push(
            Step::Execute {
                command: self.command,
                args: self.command_args,
                root: root_fs_path(name),
            },
        );
        proof {
            assert(step_views(steps@) =~= exec_steps(
                self.container@,
                self.command@,
                views(self.command_args@),
                own_pid as nat,
            ));
        }
        Ok(steps)
    }
}

} // verus!
