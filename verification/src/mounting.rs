//! Mounting the root file system of a container: the overlay of its layers,
//! the tmpfs that stands in where the overlay is refused, and what is
//! unmounted when the container goes.

use vstd::prelude::*;
use vstd::string::*;
use crate::error::Error;
use crate::pull_image::overlay_options_spec;
use crate::text::{concat2, join_strings, views, Text};
use crate::{
    overlay_fs_upper_dir, overlay_fs_upper_dir_spec, overlay_fs_work_dir,
    overlay_fs_work_dir_spec, root_fs_path, root_fs_path_spec,
};

verus! {

/// The arguments of a mount.
#[derive(Debug, Clone, PartialEq, Eq)]
pub struct MountRequest {
    /// What is mounted.
    pub source: String,
    /// Where it is mounted.
    pub target: String,
    /// The type of the file system.
    pub fstype: String,
    /// The options of the file system, where it takes any.
    pub data: Option<String>,
}

/// A mount in specifications.
pub struct MountRequestView {
    pub source: Text,
    pub target: Text,
    pub fstype: Text,
    pub data: Option<Text>,
}

impl View for MountRequest {
    type V = MountRequestView;

    open spec fn view(&self) -> MountRequestView {
        MountRequestView {
            source: self.source@,
            target: self.target@,
            fstype: self.fstype@,
            data: match self.data {
                Some(d) => Some(d@),
                None => None,
            },
        }
    }
}

/// The overlay mount of a container over these lower directories.
pub open spec fn mount_layers_spec(name: Text, lower_dirs: Seq<Text>) -> MountRequestView {
    MountRequestView {
        source: "overlay"@,
        target: root_fs_path_spec(name),
        fstype: "overlay"@,
        data: Some(
            overlay_options_spec(
                lower_dirs,
                overlay_fs_upper_dir_spec(name),
                overlay_fs_work_dir_spec(name),
            ),
        ),
    }
}

/// The tmpfs mount over the upper directory of a container.
pub open spec fn mount_writable_tmp_fs_spec(name: Text) -> MountRequestView {
    MountRequestView {
        source: "tmpfs"@,
        target: overlay_fs_upper_dir_spec(name),
        fstype: "tmpfs"@,
        data: None,
    }
}

/// The directory on which `/proc` is mounted for a container, as seen from
/// outside the container.
pub open spec fn proc_dir_spec(name: Text) -> Text {
    root_fs_path_spec(name) + "/proc"@
}

/// The overlay mount of the container `container_name`: the lower
/// directories in the order given, the first one being the base layer, over
/// the root file system of the container.
pub fn mount_layers(container_name: &str, lower_dirs: &Vec<String>) -> (r: MountRequest)
    ensures
        r@ == mount_layers_spec(container_name@, views(lower_dirs@)),
{
    let lower = join_strings(lower_dirs, ":");
    let upper = overlay_fs_upper_dir(container_name);
    let work = overlay_fs_work_dir(container_name);
    let mut options = concat2("lowerdir=", lower.as_str());
    options.append(",upperdir=");
    options.append(upper.as_str());
    options.append(",workdir=");
    options.append(work.as_str());
    MountRequest {
        source: "overlay".to_owned(),
        target: root_fs_path(container_name),
        fstype: "overlay".to_owned(),
        data: Some(options),
    }
}

/// The tmpfs mount over the upper directory of the container, which makes
/// that directory mountable where the overlay was refused. What the
/// container writes then lives in memory and is gone when the tmpfs is
/// unmounted.
pub fn mount_writable_tmp_fs(container_name: &str) -> (r: MountRequest)
    ensures
        r@ == mount_writable_tmp_fs_spec(container_name@),
{
    MountRequest {
        source: "tmpfs".to_owned(),
        target: overlay_fs_upper_dir(container_name),
        fstype: "tmpfs".to_owned(),
        data: None,
    }
}

/// The directory on which `/proc` is mounted for a container. It is made
/// before the root is changed.
pub fn proc_dir(container_name: &str) -> (r: String)
    ensures
        r@ == proc_dir_spec(container_name@),
{
    let mut r = root_fs_path(container_name);
    r.append("/proc");
    r
}

/// The mount of `/proc` as the child makes it, inside the new root and the
/// new pid namespace, before the command takes over.
pub fn mount_proc_in_container() -> (r: MountRequest)
    ensures
        r@ == (MountRequestView {
            source: "proc"@,
            target: "/proc"@,
            fstype: "proc"@,
            data: None,
        }),
{
    MountRequest {
        source: "proc".to_owned(),
        target: "/proc".to_owned(),
        fstype: "proc".to_owned(),
        data: None,
    }
}

/// The mount whose outcome is waited for.
#[derive(Debug, Clone, Copy, PartialEq, Eq, Structural)]
pub enum MountState {
    /// The overlay, for the first time.
    AwaitingOverlay,
    /// The tmpfs over the upper directory.
    AwaitingTmpfs,
    /// The overlay, for the second time.
    AwaitingRetry,
}

/// What is to be done next for the root file system.
#[derive(Debug, Clone, Copy, PartialEq, Eq, Structural)]
pub enum MountAction {
    /// Make the upper, the work and the root directory and mount the
    /// overlay: see [`mount_layers`].
    MountOverlay,
    /// Make the upper directory and mount a tmpfs over it: see
    /// [`mount_writable_tmp_fs`].
    MountTmpfs,
    /// The root file system is assembled.
    Done,
    /// Give up.
    Fail(Error),
}

/// What is done after a mount succeeded or failed, and what is waited for
/// then; `None` where the assembly is over.
pub open spec fn mount_step(state: MountState, mounted: bool) -> (MountAction, Option<MountState>) {
    match state {
        MountState::AwaitingOverlay => if mounted {
            (MountAction::Done, None)
        } else {
            (MountAction::MountTmpfs, Some(MountState::AwaitingTmpfs))
        },
        MountState::AwaitingTmpfs => if mounted {
            (MountAction::MountOverlay, Some(MountState::AwaitingRetry))
        } else {
            (MountAction::Fail(Error::RootFsAssemblyFailed), None)
        },
        MountState::AwaitingRetry => if mounted {
            (MountAction::Done, None)
        } else {
            (MountAction::Fail(Error::RootFsAssemblyFailed), None)
        },
    }
}

/// The number of mounts that may still be tried in a state.
pub open spec fn mount_rank(state: MountState) -> nat {
    match state {
        MountState::AwaitingOverlay => 3,
        MountState::AwaitingTmpfs => 2,
        MountState::AwaitingRetry => 1,
    }
}

/// The first mount of the assembly: the overlay.
pub fn mount_start() -> (r: (MountAction, MountState))
    ensures
        r == (MountAction::MountOverlay, MountState::AwaitingOverlay),
{
    (MountAction::MountOverlay, MountState::AwaitingOverlay)
}

/// One decision of the assembly of the root file system.
///
/// Where the overlay mount fails, as it does inside a container that may
/// not mount an overlay over its own file system, a tmpfs is mounted over
/// the upper directory and the overlay is tried once more. A tmpfs
/// that cannot be mounted and an overlay that fails twice end the assembly
/// with `RootFsAssemblyFailed`.
pub fn mount(state: MountState, mounted: bool) -> (r: (MountAction, Option<MountState>))
    ensures
        r == mount_step(state, mounted),
        r.1 matches Some(next) ==> mount_rank(next) < mount_rank(state),
        r.1 is None <==> (r.0 is Done || r.0 is Fail),
        r.0 is Done ==> mounted,
        r.0 is MountOverlay ==> state == MountState::AwaitingTmpfs,
{
    match state {
        MountState::AwaitingOverlay => {
            if mounted {
                (MountAction::Done, None)
            } else {
                (MountAction::MountTmpfs, Some(MountState::AwaitingTmpfs))
            }
        },
        MountState::AwaitingTmpfs => {
            if mounted {
                (MountAction::MountOverlay, Some(MountState::AwaitingRetry))
            } else {
                (MountAction::Fail(Error::RootFsAssemblyFailed), None)
            }
        },
        MountState::AwaitingRetry => {
            if mounted {
                (MountAction::Done, None)
            } else {
                (MountAction::Fail(Error::RootFsAssemblyFailed), None)
            }
        },
    }
}

/// What is unmounted when a container goes, in this order: `/proc` in its
/// root, the overlay that is its root file system, and the tmpfs that may
/// stand under the overlay as its upper directory.
pub open spec fn unmount_spec(name: Text) -> Seq<Text> {
    seq![proc_dir_spec(name), root_fs_path_spec(name), overlay_fs_upper_dir_spec(name)]
}

/// The mount points of the container `container_name`, in the order in
/// which they are unmounted. Each is unmounted by force, and none has to be
/// mounted: what cannot be unmounted is left as it is.
pub fn unmount(container_name: &str) -> (r: Vec<String>)
    ensures
        views(r@) == unmount_spec(container_name@),
{
    let mut r: Vec<String> = Vec::new();
    r.push(proc_dir(container_name));
    r.push(root_fs_path(container_name));
    r.push(overlay_fs_upper_dir(container_name));
    assert(views(r@) =~= unmount_spec(container_name@));
    r
}

} // verus!
