//! Setting up the virtual machine.

use vmsh::args::RunArgs;
use vmsh::records::Note;
use vmsh::text::NulError;
use vmsh::util::{FormatError, KernelFormat};
use vmsh::vm::{
    set_exec, set_kernel, tsi_features, unlink_paths, ExecSetup, KernelError, Redirected,
    VmAction, VmConfig, VmFailure, VmRun, VmStep,
};

const NONE: Redirected = Redirected { stdin: false, stdout: false, stderr: false };

fn config(verbosity: u8, env_content: &[u8], has_program: bool) -> VmConfig {
    VmConfig {
        cpus: 2,
        memory: 1024,
        net: false,
        uds: false,
        verbosity,
        env_content: env_content.to_vec(),
        has_program,
    }
}

fn exec(
    home: Option<&str>,
    redirected: Redirected,
    command: &[&str],
    has_env_port: bool,
    unlink: &[&str],
) -> Result<ExecSetup, NulError> {
    let command = command.iter().map(|s| s.to_string()).collect();
    let unlink = unlink.iter().map(|s| s.to_string()).collect::<Vec<_>>();
    set_exec("myhost", home, redirected, command, has_env_port, &unlink)
}

/// Check which actions are taken for a configuration, if the calls return
/// `status`.
fn check_actions(config: VmConfig, status: i32, expected: &[VmAction]) {
    let mut run = VmRun::start(config);
    for action in expected {
        assert_eq!(run.action(), *action);
        run = run.advance(status).unwrap();
    }
    assert_eq!(run.action(), VmAction::Done);
}

/// The command line names the init binary; the kernel is quiet by default.
#[test]
fn kernel_command_line() {
    let setup = set_kernel(b"\x7fELF", b"/boot/k".to_vec(), "/tmp/vmsh-init-1", 0).unwrap();
    assert_eq!(setup.path, b"/boot/k");
    assert_eq!(setup.format, KernelFormat::Elf);
    assert_eq!(
        setup.cmdline,
        "earlycon=uart,io,0x3f8 reboot=k panic=5 console=hvc0 rootfstype=virtiofs rw \
         init=/tmp/vmsh-init-1 quiet"
    );
}

/// The kernel talks at verbosity 2, but not at 1.
#[test]
fn kernel_quiet() {
    let one = set_kernel(b"BZh1", b"k".to_vec(), "/i", 1).unwrap();
    assert!(one.cmdline.ends_with(" rw init=/i quiet"));
    let two = set_kernel(b"BZh1", b"k".to_vec(), "/i", 2).unwrap();
    assert!(two.cmdline.ends_with(" rw init=/i "));
}

/// The format of the kernel has to be known.
#[test]
fn kernel_refused() {
    assert_eq!(
        set_kernel(b"\x7fE", b"k".to_vec(), "/i", 0).unwrap_err(),
        KernelError::Format(FormatError::Truncated)
    );
    assert_eq!(
        set_kernel(b"abcd", b"k".to_vec(), "/i", 0).unwrap_err(),
        KernelError::Format(FormatError::Unrecognized(0x61, 0x62, 0x63, 0x64))
    );
    assert_eq!(
        set_kernel(b"\x7fELF", b"a\0b\0".to_vec(), "/i", 0).unwrap_err(),
        KernelError::Nul(NulError { position: 1 })
    );
}

/// The init process gets defaults and nothing else, if nothing else applies.
#[test]
fn init_defaults() {
    let setup = exec(Some("/home/alice"), NONE, &[], false, &[]).unwrap();
    assert_eq!(setup.env, vec!["HOSTNAME=myhost", "HOME=/home/alice"]);
    assert!(setup.program.is_none());

    let setup = exec(None, NONE, &[], false, &[]).unwrap();
    assert_eq!(setup.env, vec!["HOSTNAME=myhost", "HOME=/root"]);
}

/// The init process learns what it has to do.
#[test]
fn init_hints() {
    let all = Redirected { stdin: true, stdout: true, stderr: true };
    let setup = exec(Some("/h"), all, &[], true, &["/tmp/a", "/tmp/b"]).unwrap();
    assert_eq!(
        setup.env,
        vec![
            "HOSTNAME=myhost",
            "HOME=/h",
            "VMSH_UNLINK=/tmp/a:/tmp/b",
            "VMSH_ENV_PORT=1",
            "VMSH_STDIN=1",
            "VMSH_STDOUT=1",
            "VMSH_STDERR=1",
        ]
    );

    let stdout = Redirected { stdin: false, stdout: true, stderr: false };
    let setup = exec(Some("/h"), stdout, &[], false, &["/tmp/a"]).unwrap();
    assert_eq!(
        setup.env,
        vec!["HOSTNAME=myhost", "HOME=/h", "VMSH_UNLINK=/tmp/a", "VMSH_STDOUT=1"]
    );
}

/// The first word of a command is the program.
#[test]
fn program_and_arguments() {
    let setup = exec(None, NONE, &["/bin/echo", "foo", "bar baz"], false, &[]).unwrap();
    let program = setup.program.unwrap();
    assert_eq!(program.path, "/bin/echo");
    assert_eq!(program.args, vec!["foo", "bar baz"]);

    let setup = exec(None, NONE, &["/bin/true"], false, &[]).unwrap();
    let program = setup.program.unwrap();
    assert_eq!(program.path, "/bin/true");
    assert!(program.args.is_empty());
}

/// What cannot be passed on as a C string is refused.
#[test]
fn nul_refused() {
    let error = exec(None, NONE, &["/bin/echo", "ab\0"], false, &[]).unwrap_err();
    assert_eq!(error, NulError { position: 2 });
    assert_eq!(error.describe(), "nul byte found in provided data at position: 2");

    // Positions are those of bytes.
    let error = exec(None, NONE, &["\u{e4}\0"], false, &[]).unwrap_err();
    assert_eq!(error, NulError { position: 2 });

    // The files to remove come first.
    let error = exec(None, NONE, &["\0"], false, &["/a", "\0"]).unwrap_err();
    assert_eq!(error, NulError { position: "VMSH_UNLINK=/a:".len() });
}

/// The extracted kernel is removed along with the init binary.
#[test]
fn files_to_remove() {
    assert_eq!(unlink_paths("/tmp/i".to_string(), None), vec!["/tmp/i"]);
    assert_eq!(
        unlink_paths("/tmp/i".to_string(), Some("/tmp/k".to_string())),
        vec!["/tmp/i", "/tmp/k"]
    );
}

/// `--net` implies `--uds`.
#[test]
fn socket_impersonation() {
    assert_eq!(tsi_features(false, false), 0);
    assert_eq!(tsi_features(false, true), 2);
    assert_eq!(tsi_features(true, false), 3);
    assert_eq!(tsi_features(true, true), 3);
}

/// The configuration follows the arguments.
#[test]
fn config_of_arguments() {
    let mut args = RunArgs {
        kernel: None,
        cpus: 4,
        memory: 512,
        net: true,
        uds: false,
        command: vec!["/bin/true".to_string()],
        env_vars: vec!["A".to_string()],
        all_envs: false,
        share_rw: Vec::new(),
        no_uid_map: false,
        verbosity: 1,
    };
    let host = vec![(b"A".to_vec(), b"1".to_vec()), (b"B".to_vec(), b"2".to_vec())];
    assert_eq!(
        VmConfig::new(&args, host.clone()),
        VmConfig {
            cpus: 4,
            memory: 512,
            net: true,
            uds: false,
            verbosity: 1,
            env_content: b"A=1\n".to_vec(),
            has_program: true,
        }
    );
    assert!(VmConfig::new(&args, host).has_env_port());

    args.command.clear();
    args.env_vars.clear();
    let config = VmConfig::new(&args, Vec::new());
    assert!(!config.has_env_port());
    assert!(!config.has_program);
}

/// The calls for a shell without anything special.
#[test]
fn script_minimal() {
    check_actions(
        config(0, b"", false),
        5,
        &[
            VmAction::CreateContext,
            VmAction::SetVmConfig { ctx: 5, cpus: 2, memory: 1024 },
            VmAction::AddSerialConsole { ctx: 5, input: -1, output: -1 },
            VmAction::DisableImplicitVsock { ctx: 5 },
            VmAction::AddVsock { ctx: 5, features: 0 },
            VmAction::SetKernel { ctx: 5 },
            VmAction::SetRoot { ctx: 5, path: "/" },
            VmAction::SetEnv { ctx: 5 },
            VmAction::StartEnter { ctx: 5 },
        ],
    );
}

/// The calls for a program with an environment, while being verbose.
#[test]
fn script_maximal() {
    let mut config = config(3, b"A=1\n", true);
    config.net = true;
    let content = b"A=1\n".to_vec();
    check_actions(
        config,
        7,
        &[
            VmAction::InitLog { target: 2, level: 3, style: 2, options: 0 },
            VmAction::CreateContext,
            VmAction::SetVmConfig { ctx: 7, cpus: 2, memory: 1024 },
            VmAction::AddSerialConsole { ctx: 7, input: -1, output: 2 },
            VmAction::DisableImplicitVsock { ctx: 7 },
            VmAction::AddVsock { ctx: 7, features: 3 },
            VmAction::SetKernel { ctx: 7 },
            VmAction::SetRoot { ctx: 7, path: "/" },
            VmAction::CreateEnvFile { content: &content },
            VmAction::AddEnvConsole { ctx: 7 },
            VmAction::AddEnvPort { ctx: 7, console: 7, name: "krun-env", input: 7, output: -1 },
            VmAction::SetExec { ctx: 7 },
            VmAction::StartEnter { ctx: 7 },
        ],
    );
}

/// Context, file, and console are not mixed up.
#[test]
fn env_port_arguments() {
    let mut run = VmRun::start(config(0, b"A=1\n", false));
    run = run.advance(11).unwrap();
    while run.step != VmStep::CreateEnvFile {
        run = run.advance(0).unwrap();
    }
    run = run.advance(33).unwrap();
    run = run.advance(22).unwrap();
    assert_eq!(
        run.action(),
        VmAction::AddEnvPort { ctx: 11, console: 22, name: "krun-env", input: 33, output: -1 }
    );
}

/// A failed call ends the run.
#[test]
fn run_fails() {
    let run = VmRun::start(config(0, b"", true)).advance(0).unwrap();
    assert_eq!(run.advance(-22), Err(VmFailure { step: VmStep::SetVmConfig, status: -22 }));
}

/// The creation of a context is never taken for a failure.
#[test]
fn context_creation_is_not_checked() {
    let run = VmRun::start(config(0, b"", true)).advance(-1).unwrap();
    assert_eq!(run.action(), VmAction::SetVmConfig { ctx: u32::MAX, cpus: 2, memory: 1024 });
}

/// Each failure has its own text.
#[test]
fn failure_texts() {
    let text = |step, status| VmFailure { step, status }.describe();
    assert_eq!(text(VmStep::InitLog, -1), "failed to set log level");
    assert_eq!(text(VmStep::SetVmConfig, -1), "failed to set VM config");
    assert_eq!(text(VmStep::AddSerialConsole, -1), "failed to add serial console");
    assert_eq!(text(VmStep::DisableImplicitVsock, -1), "failed to disable implicit vsock");
    assert_eq!(text(VmStep::AddVsock, -1), "failed to add vsock device");
    assert_eq!(text(VmStep::SetKernel, -22), "failed to set kernel (code -22)");
    assert_eq!(text(VmStep::SetRoot, -1), "failed to set root filesystem");
    assert_eq!(text(VmStep::CreateEnvFile, -1), "failed to create memfd for env vars");
    assert_eq!(text(VmStep::AddEnvConsole, -1), "failed to add virtio console for env port");
    assert_eq!(text(VmStep::AddEnvPort, -1), "failed to add env console port");
    assert_eq!(text(VmStep::SetExec, -1), "failed to set exec command");
    assert_eq!(text(VmStep::SetEnv, -1), "failed to set environment");
    assert_eq!(
        text(VmStep::StartEnter, i32::MIN),
        "failed to start VM (code -2147483648)"
    );
}

/// The context of a VM that gets as far as its configuration.
fn configured(config: VmConfig) -> VmRun {
    VmRun::start(config).advance(krun::krun_create_ctx()).unwrap()
}

/// Calls that only note something down for the context are made right away.
#[test]
fn notes_are_taken() {
    let mut run = configured(config(0, b"", false));
    while run.step != VmStep::SetKernel {
        let status = match run.step {
            VmStep::AddSerialConsole => {
                assert_eq!(run.perform(), None);
                0
            }
            _ => run.perform().unwrap().status(),
        };
        assert_eq!(status, 0);
        run = run.advance(status).unwrap();
    }
    assert_eq!(run.perform(), None);

    // There cannot be two vsock devices (`EEXIST`).
    run.step = VmStep::AddVsock;
    assert_eq!(run.perform().unwrap().status(), -17);
    run.step = VmStep::DisableImplicitVsock;
    assert_eq!(run.perform().unwrap().status(), 0);
    run.step = VmStep::AddVsock;
    run.config.net = true;
    assert_eq!(run.perform().unwrap().status(), 0);
}

/// A VM without vCPUs or without memory is refused (`EINVAL`).
#[test]
fn empty_vm_refused() {
    let mut run = configured(config(0, b"", false));
    run.config.cpus = 0;
    assert_eq!(run.perform().unwrap().status(), -22);
    run.config.cpus = 1;
    run.config.memory = 0;
    assert_eq!(run.perform().unwrap().status(), -22);
    run.config.memory = 64;
    assert_eq!(run.perform().unwrap().status(), 0);
}

/// Nothing can be noted down for a context that does not exist (`ENOENT`).
#[test]
fn unknown_context() {
    let mut run = VmRun::start(config(0, b"", false)).advance(-1).unwrap();
    assert_eq!(run.perform().unwrap().status(), -2);
    run.step = VmStep::DisableImplicitVsock;
    assert_eq!(run.perform().unwrap().status(), -2);
    run.step = VmStep::AddVsock;
    assert_eq!(run.perform().unwrap().status(), -2);
    run.step = VmStep::CreateContext;
    assert_eq!(run.perform(), None);
}

/// A receipt says what was handed over.
#[test]
fn receipts() {
    let mut run = VmRun::start(config(0, b"", false)).advance(-1).unwrap();
    run.config.uds = true;
    let ctx = u32::MAX;
    let receipt = run.perform().unwrap();
    assert_eq!(receipt.note(), Note::VmConfig { ctx, cpus: 2, memory: 1024 });
    run.step = VmStep::DisableImplicitVsock;
    assert_eq!(run.perform().unwrap().note(), Note::NoImplicitVsock { ctx });
    run.step = VmStep::AddVsock;
    assert_eq!(run.perform().unwrap().note(), Note::Vsock { ctx, features: 2 });
}
