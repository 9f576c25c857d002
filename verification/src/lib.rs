//! A minimal container engine's decision logic: challenge parsing, registry
//! resolution, layer naming, overlay assembly and container lifecycle rules.
//!
//! Nothing here touches the network, the file system or the kernel. Each
//! function takes plain values and says what is to be done next; the caller
//! does it and comes back with the outcome.

use vstd::prelude::*;
use vstd::string::*;
use crate::error::Error;
use crate::text::{
    concat2, decimal, holds_text, join, join_strings, lemma_holds_middle, lemma_holds_transitive,
    lemma_holds_wider, lemma_join_holds, lemma_parse_decimal, lemma_same_prefix,
    lemma_same_suffix, parse_usize, parse_usize_spec, usize_to_decimal, views, Text,
};

pub mod cli;
pub mod error;
pub mod exec;
pub mod ls;
pub mod mounting;
pub mod params;
pub mod plan;
pub mod pull_image;
pub mod rm;
pub mod rmi;
pub mod run;
pub mod spelling;
pub mod text;
pub mod token_auth;
pub mod www_authenticate;

verus! {

/// The directory under which everything of the engine lives.
pub const BASE_DIR: &'static str = "/tmp/mydocker";

/// The directory of all containers.
pub open spec fn containers_dir_spec() -> Text {
    BASE_DIR@ + "/containers"@
}

/// The directory of the shared layer cache.
pub open spec fn packed_layer_dir_spec() -> Text {
    BASE_DIR@ + "/layers"@
}

/// The directory of the container `name`.
pub open spec fn container_dir_spec(name: Text) -> Text {
    containers_dir_spec() + "/"@ + name
}

/// The file that records which process holds the container `name`.
pub open spec fn pid_file_path_spec(name: Text) -> Text {
    container_dir_spec(name) + "/pid"@
}

/// The directory on which the root file system of `name` is assembled.
pub open spec fn root_fs_path_spec(name: Text) -> Text {
    container_dir_spec(name) + "/rootfs"@
}

/// The directory that holds the layers of `name`.
pub open spec fn overlay_layer_dir_spec(name: Text) -> Text {
    container_dir_spec(name) + "/layers"@
}

/// The directory that holds what `name` may write: its upper and work
/// directories.
pub open spec fn overlay_fs_writable_layers_dir_spec(name: Text) -> Text {
    overlay_layer_dir_spec(name) + "/writable"@
}

/// The work directory of the overlay of `name`.
pub open spec fn overlay_fs_work_dir_spec(name: Text) -> Text {
    overlay_fs_writable_layers_dir_spec(name) + "/work"@
}

/// The upper directory of the overlay of `name`.
pub open spec fn overlay_fs_upper_dir_spec(name: Text) -> Text {
    overlay_fs_writable_layers_dir_spec(name) + "/upper"@
}

/// The directory that holds the unpacked image layers of `name`.
pub open spec fn overlay_fs_lower_dir_spec(name: Text) -> Text {
    overlay_layer_dir_spec(name) + "/lower"@
}

/// The directory of the shared layer cache.
pub fn packed_layer_dir() -> (r: String)
    ensures
        r@ == packed_layer_dir_spec(),
{
    concat2(BASE_DIR, "/layers")
}

/// The directory of all containers.
pub fn containers_dir() -> (r: String)
    ensures
        r@ == containers_dir_spec(),
{
    concat2(BASE_DIR, "/containers")
}

/// The directory of the container `name`.
pub fn container_dir(name: &str) -> (r: String)
    ensures
        r@ == container_dir_spec(name@),
{
    let mut r = containers_dir();
    r.append("/");
    r.append(name);
    r
}

/// The file that records which process holds the container `name`.
pub fn pid_file_path(name: &str) -> (r: String)
    ensures
        r@ == pid_file_path_spec(name@),
{
    let mut r = container_dir(name);
    r.append("/pid");
    r
}

/// The directory on which the root file system of `name` is assembled.
pub fn root_fs_path(name: &str) -> (r: String)
    ensures
        r@ == root_fs_path_spec(name@),
{
    let mut r = container_dir(name);
    r.append("/rootfs");
    r
}

/// The directory that holds the layers of `name`.
pub fn overlay_layer_dir(name: &str) -> (r: String)
    ensures
        r@ == overlay_layer_dir_spec(name@),
{
    let mut r = container_dir(name);
    r.append("/layers");
    r
}

/// The directory that holds what `name` may write.
pub fn overlay_fs_writable_layers_dir(name: &str) -> (r: String)
    ensures
        r@ == overlay_fs_writable_layers_dir_spec(name@),
{
    let mut r = overlay_layer_dir(name);
    r.append("/writable");
    r
}

/// The work directory of the overlay of `name`.
pub fn overlay_fs_work_dir(name: &str) -> (r: String)
    ensures
        r@ == overlay_fs_work_dir_spec(name@),
{
    let mut r = overlay_fs_writable_layers_dir(name);
    r.append("/work");
    r
}

/// The upper directory of the overlay of `name`.
pub fn overlay_fs_upper_dir(name: &str) -> (r: String)
    ensures
        r@ == overlay_fs_upper_dir_spec(name@),
{
    let mut r = overlay_fs_writable_layers_dir(name);
    r.append("/upper");
    r
}

/// The directory that holds the unpacked image layers of `name`.
pub fn overlay_fs_lower_dir(name: &str) -> (r: String)
    ensures
        r@ == overlay_fs_lower_dir_spec(name@),
{
    let mut r = overlay_layer_dir(name);
    r.append("/lower");
    r
}

/// A container on disk: its name and the paths that follow from it.
#[derive(Debug, Clone, PartialEq, Eq)]
pub struct ContainerRecord {
    /// The name of the container.
    pub name: String,
    /// The directory of the container.
    pub container_dir: String,
    /// The directory on which its root file system is assembled.
    pub rootfs_dir: String,
    /// The file that records which process holds it.
    pub pid_file_path: String,
    /// The directory that holds its layers.
    pub layer_work_dir: String,
}

impl ContainerRecord {
    /// The record of the container `name`.
    pub fn new(name: &str) -> (r: ContainerRecord)
        ensures
            r.name@ == name@,
            r.container_dir@ == container_dir_spec(name@),
            r.rootfs_dir@ == root_fs_path_spec(name@),
            r.pid_file_path@ == pid_file_path_spec(name@),
            r.layer_work_dir@ == overlay_layer_dir_spec(name@),
    {
        ContainerRecord {
            name: name.to_owned(),
            container_dir: container_dir(name),
            rootfs_dir: root_fs_path(name),
            pid_file_path: pid_file_path(name),
            layer_work_dir: overlay_layer_dir(name),
        }
    }
}

/// Two containers share a directory only if they share their name; so they
/// share no pid file and no root file system either.
pub proof fn lemma_container_dir_injective(a: Text, b: Text)
    ensures
        container_dir_spec(a) == container_dir_spec(b) ==> a == b,
        pid_file_path_spec(a) == pid_file_path_spec(b) ==> a == b,
        root_fs_path_spec(a) == root_fs_path_spec(b) ==> a == b,
{
    let prefix = containers_dir_spec() + "/"@;
    lemma_same_prefix(prefix, a, b);
    lemma_same_suffix(prefix + a, prefix + b, "/pid"@);
    lemma_same_suffix(prefix + a, prefix + b, "/rootfs"@);
}

/// Every path of a container lies in its directory.
pub proof fn lemma_paths_in_container_dir(name: Text)
    ensures
        container_dir_spec(name).is_prefix_of(pid_file_path_spec(name)),
        container_dir_spec(name).is_prefix_of(root_fs_path_spec(name)),
        container_dir_spec(name).is_prefix_of(overlay_layer_dir_spec(name)),
        container_dir_spec(name).is_prefix_of(overlay_fs_writable_layers_dir_spec(name)),
        container_dir_spec(name).is_prefix_of(overlay_fs_work_dir_spec(name)),
        container_dir_spec(name).is_prefix_of(overlay_fs_upper_dir_spec(name)),
        container_dir_spec(name).is_prefix_of(overlay_fs_lower_dir_spec(name)),
        containers_dir_spec().is_prefix_of(container_dir_spec(name)),
{
    let d = container_dir_spec(name);
    assert(d =~= pid_file_path_spec(name).subrange(0, d.len() as int));
    assert(d =~= root_fs_path_spec(name).subrange(0, d.len() as int));
    assert(d =~= overlay_layer_dir_spec(name).subrange(0, d.len() as int));
    assert(d =~= overlay_fs_writable_layers_dir_spec(name).subrange(0, d.len() as int));
    assert(d =~= overlay_fs_work_dir_spec(name).subrange(0, d.len() as int));
    assert(d =~= overlay_fs_upper_dir_spec(name).subrange(0, d.len() as int));
    assert(d =~= overlay_fs_lower_dir_spec(name).subrange(0, d.len() as int));
    assert(containers_dir_spec() =~= d.subrange(0, containers_dir_spec().len() as int));
}

/// The pid that the contents of a pid file record: decimal digits after an
/// optional plus sign. `None` where the file holds anything else, as a file
/// that was cut off while it was written may.
pub fn read_pid(contents: &str) -> (r: Option<usize>)
    ensures
        r == parse_usize_spec(contents@),
{
    parse_usize(contents)
}

/// What is written to a pid file for the process `pid`: its decimal digits.
pub fn write_pid(pid: usize) -> (r: String)
    ensures
        r@ == decimal(pid as nat),
        parse_usize_spec(r@) == Some(pid),
{
    proof {
        lemma_parse_decimal(pid);
    }
    usize_to_decimal(pid)
}

/// What the pid file of a container says about the container.
#[derive(Debug, Clone, Copy, PartialEq, Eq, Structural)]
pub enum LockState {
    /// No pid is recorded: nobody holds the container.
    Absent,
    /// The process with this pid is recorded and runs.
    LockedAlive(usize),
    /// The process with this pid is recorded and runs no more.
    LockedStale(usize),
}

/// The state of a container whose pid file records `recorded`, where `alive`
/// says whether the recorded process runs.
pub open spec fn lock_state_spec(recorded: Option<usize>, alive: bool) -> LockState {
    match recorded {
        Some(pid) => if alive {
            LockState::LockedAlive(pid)
        } else {
            LockState::LockedStale(pid)
        },
        None => LockState::Absent,
    }
}

/// The state of a container whose pid file records `recorded`.
pub fn lock_state(recorded: Option<usize>, alive: bool) -> (r: LockState)
    ensures
        r == lock_state_spec(recorded, alive),
{
    match recorded {
        Some(pid) => {
            if alive {
                LockState::LockedAlive(pid)
            } else {
                LockState::LockedStale(pid)
            }
        },
        None => LockState::Absent,
    }
}

/// The process that keeps the caller from the container, if there is one:
/// the recorded process where it runs and the caller does not use force.
pub open spec fn held_by(recorded: Option<usize>, alive: bool, force: bool) -> Option<usize> {
    match lock_state_spec(recorded, alive) {
        LockState::LockedAlive(pid) => if force {
            None
        } else {
            Some(pid)
        },
        _ => None,
    }
}

/// Decides whether the caller may take the container.
///
/// `recorded` is the pid in the container's pid file, if there is one, and
/// `alive` says whether that process still runs. The container is refused
/// with `ContainerBusy` and that pid exactly when a pid is recorded, its
/// process is alive and `force` is off. In every other case (no pid, a
/// stale pid, or `force`) the caller may go on and write its own pid.
pub fn acquire(recorded: Option<usize>, alive: bool, force: bool) -> (r: Result<(), Error>)
    ensures
        match held_by(recorded, alive, force) {
            Some(pid) => r == Err::<(), Error>(Error::ContainerBusy(pid)),
            None => r == Ok::<(), Error>(()),
        },
        force ==> r is Ok,
        !alive ==> r is Ok,
{
    match lock_state(recorded, alive) {
        LockState::LockedAlive(pid) => {
            if force {
                Ok(())
            } else {
                Err(Error::ContainerBusy(pid))
            }
        },
        _ => Ok(()),
    }
}

/// What the isolator waits for.
#[derive(Debug, Clone, Copy, PartialEq, Eq, Structural)]
pub enum IsolationState {
    /// The change of the root directory and of the working directory.
    Rooting,
    /// The new mount namespace.
    EnteringMountNamespace,
    /// The new pid namespace.
    EnteringPidNamespace,
    /// The start of the command.
    Spawning,
    /// The end of the command.
    Waiting,
}

/// What came of the operation that the isolator waited for.
#[derive(Debug, Clone, Copy, PartialEq, Eq, Structural)]
pub enum IsolationEvent {
    /// The operation succeeded.
    Succeeded,
    /// The operation failed with this code.
    Failed(i32),
    /// The command ended: with this exit code, or with none where a signal
    /// ended it.
    Exited(Option<i32>),
}

/// What the isolator asks for next.
#[derive(Debug, Clone, Copy, PartialEq, Eq, Structural)]
pub enum IsolationAction {
    /// Make the root file system the root directory and go to `/`.
    ChangeRoot,
    /// Leave the mount namespace for a new one.
    UnshareMountNamespace,
    /// Leave the pid namespace for a new one: the next child is its pid 1.
    UnsharePidNamespace,
    /// Start the command with the caller's standard streams; in the child,
    /// before the command takes over, mount `/proc`. Of a command that
    /// cannot be started [`spawn_failure`] says what was tried.
    Spawn,
    /// Wait for the command to end.
    Wait,
    /// End the process with this exit code.
    Exit(i32),
    /// Give up with this error.
    Fail(Error),
}

/// The first thing the isolator asks for, and what it then waits for.
pub open spec fn isolation_start() -> (IsolationAction, IsolationState) {
    (IsolationAction::ChangeRoot, IsolationState::Rooting)
}

/// What the isolator asks for after `event` came while it was in `state`,
/// and what it waits for then; `None` where the run is over.
pub open spec fn isolation_step(state: IsolationState, event: IsolationEvent) -> (
    IsolationAction,
    Option<IsolationState>,
) {
    match (state, event) {
        (IsolationState::Rooting, IsolationEvent::Succeeded) => (
            IsolationAction::UnshareMountNamespace,
            Some(IsolationState::EnteringMountNamespace),
        ),
        (IsolationState::EnteringMountNamespace, IsolationEvent::Succeeded) => (
            IsolationAction::UnsharePidNamespace,
            Some(IsolationState::EnteringPidNamespace),
        ),
        (IsolationState::EnteringPidNamespace, IsolationEvent::Succeeded) => (
            IsolationAction::Spawn,
            Some(IsolationState::Spawning),
        ),
        (IsolationState::Rooting, IsolationEvent::Failed(code)) => (
            IsolationAction::Fail(Error::NamespaceSetupFailed(code)),
            None,
        ),
        (IsolationState::EnteringMountNamespace, IsolationEvent::Failed(code)) => (
            IsolationAction::Fail(Error::NamespaceSetupFailed(code)),
            None,
        ),
        (IsolationState::EnteringPidNamespace, IsolationEvent::Failed(code)) => (
            IsolationAction::Fail(Error::NamespaceSetupFailed(code)),
            None,
        ),
        (IsolationState::Spawning, IsolationEvent::Succeeded) => (
            IsolationAction::Wait,
            Some(IsolationState::Waiting),
        ),
        (IsolationState::Waiting, IsolationEvent::Exited(Some(code))) => (
            IsolationAction::Exit(code),
            None,
        ),
        _ => (IsolationAction::Fail(Error::ExecFailed), None),
    }
}

/// How far a state is from the end of the run, in operations.
pub open spec fn isolation_rank(state: IsolationState) -> nat {
    match state {
        IsolationState::Rooting => 5,
        IsolationState::EnteringMountNamespace => 4,
        IsolationState::EnteringPidNamespace => 3,
        IsolationState::Spawning => 2,
        IsolationState::Waiting => 1,
    }
}

/// The first operation of the isolator: the change of root.
pub fn execute_command_start() -> (r: (IsolationAction, IsolationState))
    ensures
        r == isolation_start(),
{
    (IsolationAction::ChangeRoot, IsolationState::Rooting)
}

/// One decision of the isolator.
///
/// The run goes through the change of root, the new mount namespace, the
/// new pid namespace, the start of the command and its end, in this order
/// and each once. A failure before the start ends the run with
/// `NamespaceSetupFailed` and the code of the failure. Once the command has
/// ended with an exit code, the process is to end with that code. A command
/// that could not be started, one that ended without a code, and an event
/// that does not answer the operation waited for end the run with
/// `ExecFailed`.
pub fn execute_command(state: IsolationState, event: IsolationEvent) -> (r: (
    IsolationAction,
    Option<IsolationState>,
))
    ensures
        r == isolation_step(state, event),
        r.1 matches Some(next) ==> isolation_rank(next) + 1 == isolation_rank(state),
        r.1 is None <==> (r.0 is Exit || r.0 is Fail),
        r.0 is Spawn ==> state == IsolationState::EnteringPidNamespace,
        r.0 is Exit ==> state == IsolationState::Waiting && event == IsolationEvent::Exited(
            Some(r.0->Exit_0),
        ),
{
    match state {
        IsolationState::Rooting => match event {
            IsolationEvent::Succeeded => (
                IsolationAction::UnshareMountNamespace,
                Some(IsolationState::EnteringMountNamespace),
            ),
            IsolationEvent::Failed(code) => (
                IsolationAction::Fail(Error::NamespaceSetupFailed(code)),
                None,
            ),
            IsolationEvent::Exited(_) => (IsolationAction::Fail(Error::ExecFailed), None),
        },
        IsolationState::EnteringMountNamespace => match event {
            IsolationEvent::Succeeded => (
                IsolationAction::UnsharePidNamespace,
                Some(IsolationState::EnteringPidNamespace),
            ),
            IsolationEvent::Failed(code) => (
                IsolationAction::Fail(Error::NamespaceSetupFailed(code)),
                None,
            ),
            IsolationEvent::Exited(_) => (IsolationAction::Fail(Error::ExecFailed), None),
        },
        IsolationState::EnteringPidNamespace => match event {
            IsolationEvent::Succeeded => (IsolationAction::Spawn, Some(IsolationState::Spawning)),
            IsolationEvent::Failed(code) => (
                IsolationAction::Fail(Error::NamespaceSetupFailed(code)),
                None,
            ),
            IsolationEvent::Exited(_) => (IsolationAction::Fail(Error::ExecFailed), None),
        },
        IsolationState::Spawning => match event {
            IsolationEvent::Succeeded => (IsolationAction::Wait, Some(IsolationState::Waiting)),
            _ => (IsolationAction::Fail(Error::ExecFailed), None),
        },
        IsolationState::Waiting => match event {
            IsolationEvent::Exited(Some(code)) => (IsolationAction::Exit(code), None),
            _ => (IsolationAction::Fail(Error::ExecFailed), None),
        },
    }
}

/// The texts, each between single quotes.
pub open spec fn quoted(texts: Seq<Text>) -> Seq<Text> {
    Seq::new(texts.len(), |i: int| "'"@ + texts[i] + "'"@)
}

/// What is said of a command that could not be started: the command and its
/// arguments as they were tried, each between single quotes.
pub open spec fn spawn_failure_spec(command: Text, args: Seq<Text>) -> Text {
    "Tried to run '"@ + command + "' with arguments ["@ + join(quoted(args), ", "@) + "]"@
}

/// What is said of a command that could not be started. It names the command
/// and every argument, so that a command that is not there is not passed
/// over in silence.
pub fn spawn_failure(command: &str, args: &Vec<String>) -> (r: String)
    ensures
        r@ == spawn_failure_spec(command@, views(args@)),
{
    let mut shown: Vec<String> = Vec::new();
    let mut i: usize = 0;
    while i < args.len()
        invariant
            i <= args@.len(),
            views(shown@) == quoted(views(args@).take(i as int)),
        decreases args@.len() - i,
    {
        let mut one = concat2("'", args[i].as_str());
        one.append("'");
        let ghost before = views(shown@);
        shown.push(one);
        proof {
            assert(views(shown@) =~= before.push(one@));
            assert(quoted(views(args@).take(i + 1)) =~= quoted(views(args@).take(i as int)).push(
                one@,
            ));
        }
        i += 1;
    }
    assert(views(args@).take(args@.len() as int) =~= views(args@));
    let list = join_strings(&shown, ", ");
    let mut r = concat2("Tried to run '", command);
    r.append("' with arguments [");
    r.append(list.as_str());
    r.append("]");
    r
}

/// What is said of a command that could not be started holds the command
/// and each of its arguments as they were given.
pub proof fn lemma_spawn_failure_names_all(command: Text, args: Seq<Text>)
    ensures
        holds_text(spawn_failure_spec(command, args), command),
        forall|k: int|
            0 <= k < args.len() ==> holds_text(
                spawn_failure_spec(command, args),
                #[trigger] args[k],
            ),
{
    let said = spawn_failure_spec(command, args);
    let list = join(quoted(args), ", "@);
    let head = "Tried to run '"@;
    let tail = "' with arguments ["@ + list + "]"@;
    lemma_holds_middle(head, command, tail);
    assert(head + command + tail =~= said);
    assert forall|k: int| 0 <= k < args.len() implies holds_text(said, #[trigger] args[k]) by {
        lemma_holds_middle("'"@, args[k], "'"@);
        lemma_join_holds(quoted(args), ", "@, k);
        lemma_holds_transitive(list, quoted(args)[k], args[k]);
        lemma_holds_wider(head + command + "' with arguments ["@, list, "]"@, args[k]);
    }
}

} // verus!
