use mydocker::cli::{Cli, Command};
use mydocker::error::Error;
use mydocker::exec::ExecArgs;
use mydocker::ls::LsArgs;
use mydocker::mounting::{
    mount, mount_layers, mount_proc_in_container, mount_start, mount_writable_tmp_fs, proc_dir,
    unmount, MountAction, MountRequest, MountState,
};
use mydocker::plan::{release, Step};
use mydocker::rm::RmArgs;
use mydocker::run::RunArgs;
use mydocker::{
    acquire, container_dir, containers_dir, spawn_failure, execute_command, execute_command_start, overlay_fs_lower_dir,
    overlay_fs_upper_dir, overlay_fs_work_dir, overlay_fs_writable_layers_dir, overlay_layer_dir,
    packed_layer_dir, pid_file_path, read_pid, root_fs_path, write_pid, lock_state, ContainerRecord,
    IsolationAction, IsolationEvent, IsolationState, LockState,
};

/// Whether a command with these steps fails where the steps marked in
/// `failed` fail: it does at the first failure that is not tolerated.
fn fails(steps: &[Step], failed: &[bool]) -> bool {
    steps.iter().zip(failed.iter()).any(|(step, failed)| *failed && !step.tolerated())
}

fn teardown(name: &str) -> Vec<Step> {
    vec![
        Step::Unmount { target: format!("/tmp/mydocker/containers/{}/rootfs/proc", name) },
        Step::Unmount { target: format!("/tmp/mydocker/containers/{}/rootfs", name) },
        Step::Unmount {
            target: format!("/tmp/mydocker/containers/{}/layers/writable/upper", name),
        },
        Step::RemoveTree { path: format!("/tmp/mydocker/containers/{}", name) },
    ]
}

#[test]
fn paths_of_a_container() {
    assert_eq!(packed_layer_dir(), "/tmp/mydocker/layers");
    assert_eq!(containers_dir(), "/tmp/mydocker/containers");
    assert_eq!(container_dir("c"), "/tmp/mydocker/containers/c");
    assert_eq!(pid_file_path("c"), "/tmp/mydocker/containers/c/pid");
    assert_eq!(root_fs_path("c"), "/tmp/mydocker/containers/c/rootfs");
    assert_eq!(overlay_layer_dir("c"), "/tmp/mydocker/containers/c/layers");
    assert_eq!(overlay_fs_lower_dir("c"), "/tmp/mydocker/containers/c/layers/lower");
    assert_eq!(overlay_fs_writable_layers_dir("c"), "/tmp/mydocker/containers/c/layers/writable");
    assert_eq!(overlay_fs_upper_dir("c"), "/tmp/mydocker/containers/c/layers/writable/upper");
    assert_eq!(overlay_fs_work_dir("c"), "/tmp/mydocker/containers/c/layers/writable/work");
    assert_eq!(proc_dir("c"), "/tmp/mydocker/containers/c/rootfs/proc");
}

#[test]
fn record_of_a_container() {
    assert_eq!(
        ContainerRecord::new("web"),
        ContainerRecord {
            name: "web".to_string(),
            container_dir: "/tmp/mydocker/containers/web".to_string(),
            rootfs_dir: "/tmp/mydocker/containers/web/rootfs".to_string(),
            pid_file_path: "/tmp/mydocker/containers/web/pid".to_string(),
            layer_work_dir: "/tmp/mydocker/containers/web/layers".to_string(),
        }
    );
}

#[test]
fn containers_with_different_names_share_no_path() {
    assert_ne!(container_dir("a"), container_dir("b"));
    assert_ne!(pid_file_path("a"), pid_file_path("ab"));
    assert!(pid_file_path("web").starts_with(container_dir("web").as_str()));
    assert!(overlay_fs_work_dir("web").starts_with(container_dir("web").as_str()));
    assert_eq!(container_dir(""), "/tmp/mydocker/containers/");
    assert_eq!(container_dir("/etc"), "/tmp/mydocker/containers//etc");
}

#[test]
fn pid_files_hold_decimal_digits() {
    assert_eq!(write_pid(4242), "4242");
    assert_eq!(write_pid(0), "0");
    assert_eq!(read_pid("4242"), Some(4242));
    assert_eq!(read_pid("+1"), Some(1));
    assert_eq!(read_pid(""), None);
    assert_eq!(read_pid("42\n"), None);
    assert_eq!(read_pid("42x"), None);
    assert_eq!(read_pid("-1"), None);
    assert_eq!(read_pid(write_pid(31337).as_str()), Some(31337));
}

#[test]
fn a_container_is_absent_alive_or_stale() {
    assert_eq!(lock_state(None, false), LockState::Absent);
    assert_eq!(lock_state(None, true), LockState::Absent);
    assert_eq!(lock_state(Some(7), true), LockState::LockedAlive(7));
    assert_eq!(lock_state(Some(7), false), LockState::LockedStale(7));
}

#[test]
fn a_live_process_holds_its_container() {
    assert_eq!(acquire(Some(77), true, false), Err(Error::ContainerBusy(77)));
}

#[test]
fn force_takes_the_container_from_a_live_process() {
    assert_eq!(acquire(Some(77), true, true), Ok(()));
    assert_eq!(acquire(Some(77), false, true), Ok(()));
    assert_eq!(acquire(None, true, true), Ok(()));
}

#[test]
fn a_free_or_stale_container_can_be_taken() {
    assert_eq!(acquire(None, false, false), Ok(()));
    assert_eq!(acquire(None, true, false), Ok(()));
    assert_eq!(acquire(Some(77), false, false), Ok(()));
}

fn run_args(force: bool) -> RunArgs {
    RunArgs {
        image: "busybox:latest".to_string(),
        command: "/bin/echo".to_string(),
        command_args: vec!["hi".to_string(), "there".to_string()],
        name: "c".to_string(),
        force,
        registry: "https://registry.hub.docker.com".to_string(),
    }
}

#[test]
fn run_is_refused_while_the_container_is_held() {
    assert_eq!(run_args(false).run(Some(9), true, 100).unwrap_err(), Error::ContainerBusy(9));
}

#[test]
fn run_clears_pulls_mounts_and_executes() {
    let mut expected = teardown("c");
    expected.extend(vec![
        Step::CreateDirs { path: "/tmp/mydocker/containers/c".to_string() },
        Step::CreateDirs { path: "/tmp/mydocker/containers/c/rootfs".to_string() },
        Step::WriteFile {
            path: "/tmp/mydocker/containers/c/pid".to_string(),
            contents: "100".to_string(),
        },
        Step::PullImage {
            registry: "https://registry.hub.docker.com".to_string(),
            image: "busybox:latest".to_string(),
            container: "c".to_string(),
        },
        Step::MountRootFs { container: "c".to_string() },
        Step::CopyIfPresent {
            probe: "/usr/local/bin/docker-explorer".to_string(),
            from: "/bin/echo".to_string(),
            to: "/tmp/mydocker/containers/c/rootfs/usr/local/bin/docker-explorer".to_string(),
        },
        Step::CreateDirs { path: "/tmp/mydocker/containers/c/rootfs/dev".to_string() },
        Step::CreateFile { path: "/tmp/mydocker/containers/c/rootfs/dev/null".to_string() },
        Step::CreateDirs { path: "/tmp/mydocker/containers/c/rootfs/proc".to_string() },
        Step::Execute {
            command: "/bin/echo".to_string(),
            args: vec!["hi".to_string(), "there".to_string()],
            root: "/tmp/mydocker/containers/c/rootfs".to_string(),
        },
    ]);
    assert_eq!(run_args(false).run(None, false, 100).unwrap(), expected);
    assert_eq!(run_args(false).run(Some(9), false, 100).unwrap(), expected);
    assert_eq!(run_args(true).run(Some(9), true, 100).unwrap(), expected);
}

#[test]
fn run_pulls_before_it_mounts_and_executes_last() {
    let steps = run_args(false).run(None, false, 1).unwrap();
    let pull = steps.iter().position(|s| matches!(s, Step::PullImage { .. })).unwrap();
    let mount = steps.iter().position(|s| matches!(s, Step::MountRootFs { .. })).unwrap();
    let execute = steps.iter().position(|s| matches!(s, Step::Execute { .. })).unwrap();
    assert!(pull < mount && mount < execute);
    assert_eq!(execute, steps.len() - 1);
    assert_eq!(steps.iter().filter(|s| matches!(s, Step::PullImage { .. })).count(), 1);
}

#[test]
fn run_has_defaults() {
    let args = RunArgs::new("busybox:latest".to_string(), "/bin/true".to_string(), vec![]);
    assert_eq!(args.name, "default");
    assert_eq!(args.registry, "https://registry.hub.docker.com");
    assert!(!args.force);
    assert_eq!(args.image, "busybox:latest");
    assert_eq!(args.command, "/bin/true");
    assert!(args.command_args.is_empty());
}

fn exec_args(force: bool) -> ExecArgs {
    ExecArgs {
        container: "c".to_string(),
        command: "/bin/sh".to_string(),
        command_args: vec!["-c".to_string(), "true".to_string()],
        force,
    }
}

#[test]
fn exec_is_refused_while_the_container_is_held() {
    assert_eq!(exec_args(false).run(Some(5), true, 6).unwrap_err(), Error::ContainerBusy(5));
}

#[test]
fn exec_rewrites_the_pid_file_and_executes() {
    let expected = vec![
        Step::WriteFile {
            path: "/tmp/mydocker/containers/c/pid".to_string(),
            contents: "6".to_string(),
        },
        Step::Execute {
            command: "/bin/sh".to_string(),
            args: vec!["-c".to_string(), "true".to_string()],
            root: "/tmp/mydocker/containers/c/rootfs".to_string(),
        },
    ];
    assert_eq!(exec_args(false).run(None, false, 6).unwrap(), expected);
    assert_eq!(exec_args(false).run(Some(5), false, 6).unwrap(), expected);
    assert_eq!(exec_args(true).run(Some(5), true, 6).unwrap(), expected);
}

#[test]
fn rm_clears_each_container_away() {
    let steps = RmArgs { containers: vec!["a".to_string(), "b".to_string()] }.run();
    let mut expected = teardown("a");
    expected.extend(teardown("b"));
    assert_eq!(steps, expected);
    assert!(RmArgs { containers: vec![] }.run().is_empty());
    assert_eq!(release("a"), teardown("a"));
}

#[test]
fn rm_goes_on_when_nothing_is_mounted() {
    let steps = RmArgs { containers: vec!["gone".to_string(), "gone".to_string()] }.run();
    assert_eq!(steps.len(), 8);
    let unmounts_fail = [true, true, true, false, true, true, true, false];
    assert!(!fails(&steps, &unmounts_fail));
    assert!(!fails(&steps, &[false; 8]));
    for (i, step) in steps.iter().enumerate() {
        assert_eq!(step.tolerated(), i % 4 != 3);
    }
}

#[test]
fn rm_fails_where_a_directory_cannot_be_removed() {
    let steps = RmArgs { containers: vec!["a".to_string(), "b".to_string()] }.run();
    assert!(fails(&steps, &[false, false, false, true, false, false, false, false]));
    assert!(fails(&steps, &[false, false, false, false, false, false, false, true]));
    assert!(fails(&steps, &[true, true, true, true, false, false, false, false]));
    assert!(matches!(steps[3], Step::RemoveTree { .. }));
    assert!(matches!(steps[7], Step::RemoveTree { .. }));
    assert!(fails(&release("a"), &[false, false, false, true]));
    assert!(!fails(&release("a"), &[true, true, true, false]));
}

#[test]
fn run_fails_on_every_step_but_the_unmounts() {
    let steps = run_args(false).run(None, false, 1).unwrap();
    for i in 0..steps.len() {
        let mut failed = vec![false; steps.len()];
        failed[i] = true;
        assert_eq!(fails(&steps, &failed), i >= 3, "step {}", i);
    }
}

#[test]
fn only_unmounts_may_fail() {
    assert!(Step::Unmount { target: "t".to_string() }.tolerated());
    assert!(!Step::RemoveTree { path: "p".to_string() }.tolerated());
    assert!(!Step::RemoveFile { path: "p".to_string() }.tolerated());
    assert!(!Step::CreateDirs { path: "p".to_string() }.tolerated());
    assert!(!Step::CreateFile { path: "p".to_string() }.tolerated());
    assert!(!Step::WriteFile { path: "p".to_string(), contents: "1".to_string() }.tolerated());
    assert!(!Step::MountRootFs { container: "c".to_string() }.tolerated());
    let steps = run_args(false).run(None, false, 1).unwrap();
    assert_eq!(steps.iter().filter(|s| s.tolerated()).count(), 3);
}

#[test]
fn unmount_names_proc_then_root_then_upper() {
    assert_eq!(
        unmount("c"),
        [
            "/tmp/mydocker/containers/c/rootfs/proc",
            "/tmp/mydocker/containers/c/rootfs",
            "/tmp/mydocker/containers/c/layers/writable/upper",
        ]
    );
}

#[test]
fn tmpfs_of_the_fallback_stands_at_the_upper_directory() {
    let request = mount_writable_tmp_fs("c");
    assert_eq!(request.target, overlay_fs_upper_dir("c"));
    assert_eq!(request.target, "/tmp/mydocker/containers/c/layers/writable/upper");
    assert!(unmount("c").contains(&request.target));
}

#[test]
fn a_command_that_cannot_start_is_named_with_its_arguments() {
    assert_eq!(
        spawn_failure("/bin/nothing", &vec!["-a".to_string(), "b c".to_string()]),
        "Tried to run '/bin/nothing' with arguments ['-a', 'b c']"
    );
    assert_eq!(spawn_failure("x", &vec![]), "Tried to run 'x' with arguments []");
    assert_eq!(
        spawn_failure("", &vec![String::new()]),
        "Tried to run '' with arguments ['']"
    );
    assert_eq!(
        execute_command(IsolationState::Spawning, IsolationEvent::Failed(2)),
        (IsolationAction::Fail(Error::ExecFailed), None)
    );
    assert_ne!(Error::ExecFailed.exit_code(), 0);
}

#[test]
fn mounts_of_a_container() {
    let lower = vec!["/l/0".to_string(), "/l/1".to_string()];
    assert_eq!(
        mount_layers("c", &lower),
        MountRequest {
            source: "overlay".to_string(),
            target: "/tmp/mydocker/containers/c/rootfs".to_string(),
            fstype: "overlay".to_string(),
            data: Some(
                "lowerdir=/l/0:/l/1,upperdir=/tmp/mydocker/containers/c/layers/writable/upper,workdir=/tmp/mydocker/containers/c/layers/writable/work"
                    .to_string()
            ),
        }
    );
    assert_eq!(
        mount_writable_tmp_fs("c"),
        MountRequest {
            source: "tmpfs".to_string(),
            target: "/tmp/mydocker/containers/c/layers/writable/upper".to_string(),
            fstype: "tmpfs".to_string(),
            data: None,
        }
    );
    assert_eq!(
        mount_proc_in_container(),
        MountRequest {
            source: "proc".to_string(),
            target: "/proc".to_string(),
            fstype: "proc".to_string(),
            data: None,
        }
    );
}

#[test]
fn overlay_that_mounts_at_once_needs_no_tmpfs() {
    assert_eq!(mount_start(), (MountAction::MountOverlay, MountState::AwaitingOverlay));
    assert_eq!(mount(MountState::AwaitingOverlay, true), (MountAction::Done, None));
}

#[test]
fn refused_overlay_is_tried_again_over_a_tmpfs() {
    assert_eq!(
        mount(MountState::AwaitingOverlay, false),
        (MountAction::MountTmpfs, Some(MountState::AwaitingTmpfs))
    );
    assert_eq!(
        mount(MountState::AwaitingTmpfs, true),
        (MountAction::MountOverlay, Some(MountState::AwaitingRetry))
    );
    assert_eq!(mount(MountState::AwaitingRetry, true), (MountAction::Done, None));
}

#[test]
fn second_refusal_fails_the_assembly() {
    assert_eq!(
        mount(MountState::AwaitingRetry, false),
        (MountAction::Fail(Error::RootFsAssemblyFailed), None)
    );
    assert_eq!(
        mount(MountState::AwaitingTmpfs, false),
        (MountAction::Fail(Error::RootFsAssemblyFailed), None)
    );
}

#[test]
fn isolation_runs_through_its_operations_in_order() {
    assert_eq!(execute_command_start(), (IsolationAction::ChangeRoot, IsolationState::Rooting));
    assert_eq!(
        execute_command(IsolationState::Rooting, IsolationEvent::Succeeded),
        (IsolationAction::UnshareMountNamespace, Some(IsolationState::EnteringMountNamespace))
    );
    assert_eq!(
        execute_command(IsolationState::EnteringMountNamespace, IsolationEvent::Succeeded),
        (IsolationAction::UnsharePidNamespace, Some(IsolationState::EnteringPidNamespace))
    );
    assert_eq!(
        execute_command(IsolationState::EnteringPidNamespace, IsolationEvent::Succeeded),
        (IsolationAction::Spawn, Some(IsolationState::Spawning))
    );
    assert_eq!(
        execute_command(IsolationState::Spawning, IsolationEvent::Succeeded),
        (IsolationAction::Wait, Some(IsolationState::Waiting))
    );
    assert_eq!(
        execute_command(IsolationState::Waiting, IsolationEvent::Exited(Some(0))),
        (IsolationAction::Exit(0), None)
    );
    assert_eq!(
        execute_command(IsolationState::Waiting, IsolationEvent::Exited(Some(42))),
        (IsolationAction::Exit(42), None)
    );
}

#[test]
fn failed_namespace_setup_surfaces_its_code() {
    for state in [
        IsolationState::Rooting,
        IsolationState::EnteringMountNamespace,
        IsolationState::EnteringPidNamespace,
    ] {
        assert_eq!(
            execute_command(state, IsolationEvent::Failed(-1)),
            (IsolationAction::Fail(Error::NamespaceSetupFailed(-1)), None)
        );
    }
    assert_eq!(Error::NamespaceSetupFailed(-1).exit_code(), -1);
    assert_eq!(Error::NamespaceSetupFailed(13).exit_code(), 13);
    assert_eq!(Error::NamespaceSetupFailed(0).exit_code(), 1);
    assert_eq!(Error::ExecFailed.exit_code(), 1);
    assert_eq!(Error::ContainerBusy(3).exit_code(), 1);
}

#[test]
fn errors_tell_what_failed() {
    assert_eq!(
        Error::ContainerBusy(4242).message(),
        "process 4242 may still be running; use --force"
    );
    assert_eq!(
        Error::NamespaceSetupFailed(-1).message(),
        "entering the namespaces failed with code -1"
    );
    assert_eq!(
        Error::NamespaceSetupFailed(i32::MIN).message(),
        "entering the namespaces failed with code -2147483648"
    );
    assert_eq!(
        Error::NamespaceSetupFailed(i32::MAX).message(),
        "entering the namespaces failed with code 2147483647"
    );
    assert_eq!(Error::NamespaceSetupFailed(0).message(), "entering the namespaces failed with code 0");
    let plain = [
        Error::MalformedChallenge,
        Error::AuthSchemeUnsupported,
        Error::TokenExchangeFailed,
        Error::UnsupportedManifestSchema,
        Error::NoMatchingPlatform,
        Error::UnsupportedMediaType,
        Error::LayerFetchFailed,
        Error::RootFsAssemblyFailed,
        Error::ExecFailed,
    ];
    for (i, error) in plain.iter().enumerate() {
        assert!(!error.message().is_empty());
        assert_eq!(error.exit_code(), 1);
        for other in plain[i + 1..].iter() {
            assert_ne!(error.message(), other.message());
        }
    }
}

#[test]
fn command_that_cannot_start_or_ends_by_signal_fails() {
    assert_eq!(
        execute_command(IsolationState::Spawning, IsolationEvent::Failed(2)),
        (IsolationAction::Fail(Error::ExecFailed), None)
    );
    assert_eq!(
        execute_command(IsolationState::Waiting, IsolationEvent::Exited(None)),
        (IsolationAction::Fail(Error::ExecFailed), None)
    );
    assert_eq!(
        execute_command(IsolationState::Waiting, IsolationEvent::Succeeded),
        (IsolationAction::Fail(Error::ExecFailed), None)
    );
    assert_eq!(
        execute_command(IsolationState::Rooting, IsolationEvent::Exited(Some(0))),
        (IsolationAction::Fail(Error::ExecFailed), None)
    );
    assert_eq!(
        execute_command(IsolationState::Spawning, IsolationEvent::Exited(Some(0))),
        (IsolationAction::Fail(Error::ExecFailed), None)
    );
}

#[test]
fn commands_that_take_a_container_name_it() {
    let run = Cli { sub_command: Command::Run(run_args(false)) };
    assert_eq!(run.container().unwrap(), "c");
    let exec = Cli { sub_command: Command::Exec(exec_args(false)) };
    assert_eq!(exec.container().unwrap(), "c");
    let rm = Cli { sub_command: Command::Rm(RmArgs { containers: vec!["c".to_string()] }) };
    assert_eq!(rm.container(), None);
    let ls = Cli { sub_command: Command::Ls(LsArgs {}) };
    assert_eq!(ls.container(), None);
}
