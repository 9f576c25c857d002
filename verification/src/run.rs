//! The `run` command: take the container, clear away what it held, pull the
//! image, assemble the root file system and run the command in it.

use vstd::prelude::*;
use crate::error::Error;
use crate::mounting::{proc_dir, proc_dir_spec};
use crate::plan::{
    command_fails, is_tolerated, push_release, release_spec, step_views, Step, StepView,
};
use crate::text::{concat2, decimal, views, Text};
use crate::{
    acquire, container_dir, container_dir_spec, held_by, pid_file_path, pid_file_path_spec,
    root_fs_path, root_fs_path_spec, write_pid,
};

verus! {

/// A helper of the host that is made available inside the container where
/// the host has it.
pub const DOCKER_EXPLORER: &'static str = "/usr/local/bin/docker-explorer";

/// The registry that is asked where none is named.
pub const DEFAULT_REGISTRY: &'static str = "https://registry.hub.docker.com";

/// The name of the container where none is given.
pub const DEFAULT_NAME: &'static str = "default";

/// The arguments of `run`.
#[derive(Debug)]
pub struct RunArgs {
    /// The image, as `name:tag`.
    pub image: String,
    /// The command to run in the container.
    pub command: String,
    /// The arguments of the command.
    pub command_args: Vec<String>,
    /// The name of the container.
    pub name: String,
    /// Whether to take the container from a live process.
    pub force: bool,
    /// The registry to pull the image from.
    pub registry: String,
}

/// The steps of `run` for the process `own_pid`, once the container is
/// taken: clear away what the container held, make its directories, record
/// the pid, pull the image, mount the root file system, put the helper of the
/// host, `/dev/null` and the mount point of `/proc` into it, and run the
/// command.
///
/// Of these steps only the unmounts may fail: an earlier container need not
/// be mounted. A directory of an earlier container that cannot be removed
/// fails the command, as it does for `rm`, so that nothing is run on top of
/// what an earlier run left behind.
pub open spec fn run_steps(
    image: Text,
    command: Text,
    args: Seq<Text>,
    name: Text,
    registry: Text,
    own_pid: nat,
) -> Seq<StepView> {
    release_spec(name) + seq![
        StepView::CreateDirs { path: container_dir_spec(name) },
        StepView::CreateDirs { path: root_fs_path_spec(name) },
        StepView::WriteFile { path: pid_file_path_spec(name), contents: decimal(own_pid) },
        StepView::PullImage { registry, image, container: name },
        StepView::MountRootFs { container: name },
        StepView::CopyIfPresent {
            probe: DOCKER_EXPLORER@,
            from: command,
            to: root_fs_path_spec(name) + DOCKER_EXPLORER@,
        },
        StepView::CreateDirs { path: root_fs_path_spec(name) + "/dev"@ },
        StepView::CreateFile { path: root_fs_path_spec(name) + "/dev/null"@ },
        StepView::CreateDirs { path: proc_dir_spec(name) },
        StepView::Execute { command, args, root: root_fs_path_spec(name) },
    ]
}

/// In the steps of `run` the image is pulled once, before the root file
/// system is mounted, and the command is run last: the network is done with
/// before the first mount, and nothing follows the command.
pub proof fn lemma_run_steps_order(
    image: Text,
    command: Text,
    args: Seq<Text>,
    name: Text,
    registry: Text,
    own_pid: nat,
)
    ensures
        ({
            let steps = run_steps(image, command, args, name, registry, own_pid);
            &&& steps.len() == 14
            &&& steps[7] is PullImage
            &&& steps[8] is MountRootFs
            &&& steps[13] is Execute
            &&& forall|i: int|
                0 <= i < steps.len() && i != 7 ==> !(#[trigger] steps[i] is PullImage)
            &&& forall|i: int|
                0 <= i < steps.len() && i != 8 ==> !(#[trigger] steps[i] is MountRootFs)
            &&& forall|i: int| 0 <= i < steps.len() && i != 13 ==> !(#[trigger] steps[i] is Execute)
        }),
{
}

/// `run` goes on where the unmounts of the earlier container fail, and fails
/// where any other of its steps fails.
pub proof fn lemma_run_fails_on_all_but_unmounts(
    image: Text,
    command: Text,
    args: Seq<Text>,
    name: Text,
    registry: Text,
    own_pid: nat,
    failed: Seq<bool>,
)
    requires
        failed.len() == 14,
    ensures
        command_fails(run_steps(image, command, args, name, registry, own_pid), failed)
            <==> exists|i: int| 3 <= i < 14 && #[trigger] failed[i],
{
    let steps = run_steps(image, command, args, name, registry, own_pid);
    if exists|i: int| 3 <= i < 14 && #[trigger] failed[i] {
        let i = choose|i: int| 3 <= i < 14 && #[trigger] failed[i];
        assert(!is_tolerated(steps[i]));
    }
}

impl RunArgs {
    /// The arguments of `run` for an image and a command, with the container
    /// `default`, the default registry, and `force` off.
    pub fn new(image: String, command: String, command_args: Vec<String>) -> (r: RunArgs)
        ensures
            r.image == image,
            r.command == command,
            r.command_args == command_args,
            r.name@ == DEFAULT_NAME@,
            !r.force,
            r.registry@ == DEFAULT_REGISTRY@,
    {
        RunArgs {
            image,
            command,
            command_args,
            name: DEFAULT_NAME.to_owned(),
            force: false,
            registry: DEFAULT_REGISTRY.to_owned(),
        }
    }

    /// Decides on a `run`.
    ///
    /// `recorded` is the pid in the pid file of the container, if there is
    /// one; `alive` says whether that process runs; `own_pid` is the pid of
    /// the caller. The command is refused with `ContainerBusy` where a live
    /// process holds the container and `force` is off. Else the steps of
    /// `run_steps` are returned.
    pub fn run(self, recorded: Option<usize>, alive: bool, own_pid: usize) -> (r: Result<
        Vec<Step>,
        Error,
    >)
        ensures
            match held_by(recorded, alive, self.force) {
                Some(pid) => r matches Err(e) && e == Error::ContainerBusy(pid),
                None => r matches Ok(steps) && step_views(steps@) == run_steps(
                    self.image@,
                    self.command@,
                    views(self.command_args@),
                    self.name@,
                    self.registry@,
                    own_pid as nat,
                ),
            },
    {
        match acquire(recorded, alive, self.force) {
            Err(e) => {
                return Err(e);
            },
            Ok(_) => {},
        }
        let name = self.name.as_str();
        let root = root_fs_path(name);
        let mut steps: Vec<Step> = Vec::new();
        push_release(&mut steps, name);
        let ghost released = step_views(steps@);
        steps.push(Step::CreateDirs { path: container_dir(name) });
        steps.push(Step::CreateDirs { path: root_fs_path(name) });
        steps.push(Step::WriteFile { path: pid_file_path(name), contents: write_pid(own_pid) });
        steps.push(
            Step::PullImage {
                registry: self.registry.clone(),
                image: self.image.clone(),
                container: self.name.clone(),
            },
        );
        steps.push(Step::MountRootFs { container: self.name.clone() });
        steps.push(
            Step::CopyIfPresent {
                probe: DOCKER_EXPLORER.to_owned(),
                from: self.command.clone(),
                to: concat2(root.as_str(), DOCKER_EXPLORER),
            },
        );
        steps.push(Step::CreateDirs { path: concat2(root.as_str(), "/dev") });
        steps.push(Step::CreateFile { path: concat2(root.as_str(), "/dev/null") });
        steps.push(Step::CreateDirs { path: proc_dir(name) });
        steps.push(Step::Execute { command: self.command, args: self.command_args, root });
        proof {
            assert(released =~= release_spec(self.name@));
            assert(step_views(steps@) =~= run_steps(
                self.image@,
                self.command@,
                views(self.command_args@),
                self.name@,
                self.registry@,
                own_pid as nat,
            ));
        }
        Ok(steps)
    }
}

} // verus!
