//! What a command comes to: the steps that the caller takes, in order.

use vstd::prelude::*;
use crate::mounting::{proc_dir, unmount_spec};
use crate::text::{views, Text};
use crate::{container_dir, container_dir_spec, overlay_fs_upper_dir, root_fs_path};

verus! {

/// One step of a command.
#[derive(Debug, Clone, PartialEq, Eq)]
pub enum Step {
    /// Unmount what is mounted on `target`, by force.
    Unmount { target: String },
    /// Remove the directory `path` and all that is in it, where there is
    /// one. Where there is none the step has nothing to do and succeeds; it
    /// fails where a directory stays behind.
    RemoveTree { path: String },
    /// Remove the file `path`.
    RemoveFile { path: String },
    /// Make the directory `path` and the directories above it.
    CreateDirs { path: String },
    /// Write `contents` to the file `path`, in place of what it held.
    WriteFile { path: String, contents: String },
    /// Make the empty file `path`.
    CreateFile { path: String },
    /// Where the file `probe` exists, make the directories above `to` and
    /// copy the file `from` to `to`.
    CopyIfPresent { probe: String, from: String, to: String },
    /// Resolve `image` at `registry`, and fetch and unpack its layers for
    /// the container.
    PullImage { registry: String, image: String, container: String },
    /// Mount the overlay of the unpacked layers as the root file system of
    /// the container.
    MountRootFs { container: String },
    /// Run `command` with `args`, isolated in `root`. The process ends with
    /// the exit code of the command.
    Execute { command: String, args: Vec<String>, root: String },
}

/// A step in specifications.
pub enum StepView {
    Unmount { target: Text },
    RemoveTree { path: Text },
    RemoveFile { path: Text },
    CreateDirs { path: Text },
    WriteFile { path: Text, contents: Text },
    CreateFile { path: Text },
    CopyIfPresent { probe: Text, from: Text, to: Text },
    PullImage { registry: Text, image: Text, container: Text },
    MountRootFs { container: Text },
    Execute { command: Text, args: Seq<Text>, root: Text },
}

impl View for Step {
    type V = StepView;

    open spec fn view(&self) -> StepView {
        match self {
            Step::Unmount { target } => StepView::Unmount { target: target@ },
            Step::RemoveTree { path } => StepView::RemoveTree { path: path@ },
            Step::RemoveFile { path } => StepView::RemoveFile { path: path@ },
            Step::CreateDirs { path } => StepView::CreateDirs { path: path@ },
            Step::WriteFile { path, contents } => StepView::WriteFile {
                path: path@,
                contents: contents@,
            },
            Step::CreateFile { path } => StepView::CreateFile { path: path@ },
            Step::CopyIfPresent { probe, from, to } => StepView::CopyIfPresent {
                probe: probe@,
                from: from@,
                to: to@,
            },
            Step::PullImage { registry, image, container } => StepView::PullImage {
                registry: registry@,
                image: image@,
                container: container@,
            },
            Step::MountRootFs { container } => StepView::MountRootFs { container: container@ },
            Step::Execute { command, args, root } => StepView::Execute {
                command: command@,
                args: views(args@),
                root: root@,
            },
        }
    }
}

/// The views of a vector of steps, in order.
pub open spec fn step_views(steps: Seq<Step>) -> Seq<StepView> {
    Seq::new(steps.len(), |i: int| steps[i]@)
}

/// Whether the command goes on when this step fails. It does for unmounting
/// only: what is not mounted cannot be unmounted, and what stays mounted
/// against the will of the command makes the removal that follows fail.
pub open spec fn is_tolerated(step: StepView) -> bool {
    step is Unmount
}

/// Whether a command with these steps fails, where `failed[i]` says that
/// step `i` was taken and failed: it does where a step failed whose failure
/// is not tolerated.
pub open spec fn command_fails(steps: Seq<StepView>, failed: Seq<bool>) -> bool {
    exists|i: int|
        0 <= i < steps.len() && i < failed.len() && #[trigger] failed[i] && !is_tolerated(steps[i])
}

impl Step {
    /// Whether the command goes on when this step fails.
    pub fn tolerated(&self) -> (r: bool)
        ensures
            r == is_tolerated(self@),
    {
        match self {
            Step::Unmount { .. } => true,
            _ => false,
        }
    }
}

/// The steps that clear a container away: its mount points are unmounted in
/// the order of [`unmount_spec`], and then its directory is removed.
pub open spec fn release_spec(name: Text) -> Seq<StepView> {
    seq![
        StepView::Unmount { target: unmount_spec(name)[0] },
        StepView::Unmount { target: unmount_spec(name)[1] },
        StepView::Unmount { target: unmount_spec(name)[2] },
        StepView::RemoveTree { path: container_dir_spec(name) },
    ]
}

/// Appends to `steps` the steps that clear the container `name` away.
pub fn push_release(steps: &mut Vec<Step>, name: &str)
    ensures
        step_views(final(steps)@) == step_views(old(steps)@) + release_spec(name@),
{
    let ghost before = step_views(steps@);
    steps.push(Step::Unmount { target: proc_dir(name) });
    steps.push(Step::Unmount { target: root_fs_path(name) });
    steps.push(Step::Unmount { target: overlay_fs_upper_dir(name) });
    steps.push(Step::RemoveTree { path: container_dir(name) });
    assert(step_views(steps@) =~= before + release_spec(name@));
}

/// The steps that clear the container `name` away. The command goes on
/// where an unmount fails, and fails where the directory cannot be removed.
pub fn release(name: &str) -> (r: Vec<Step>)
    ensures
        step_views(r@) == release_spec(name@),
        forall|failed: Seq<bool>|
            failed.len() == 4 ==> (#[trigger] command_fails(step_views(r@), failed)
                <==> failed[3]),
{
    let mut steps: Vec<Step> = Vec::new();
    push_release(&mut steps, name);
    proof {
        assert(step_views(steps@) =~= release_spec(name@));
        assert forall|failed: Seq<bool>| failed.len() == 4 implies (#[trigger] command_fails(
            step_views(steps@),
            failed,
        ) <==> failed[3]) by {
            lemma_release_fails_on_removal(name@, failed);
        }
    }
    steps
}

/// Clearing a container away fails exactly where its directory cannot be
/// removed: no failed unmount makes it fail.
pub proof fn lemma_release_fails_on_removal(name: Text, failed: Seq<bool>)
    requires
        failed.len() == 4,
    ensures
        command_fails(release_spec(name), failed) <==> failed[3],
{
    let steps = release_spec(name);
    if failed[3] {
        assert(!is_tolerated(steps[3]));
    }
}

} // verus!
