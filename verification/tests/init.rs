//! The init process of the guest.

use vmsh::init::{
    do_exec, kernel_supports_fs, mount_filesystems, mount_or_err, set_exit_code, DevLink,
    ExitReport, Filesystem, MountOutcome, MountStep, KRUN_EXIT_CODE_IOCTL, VIRTIOFS_MAGIC,
};
use vmsh::init::Filesystem::{
    Bpf, Cgroup2, Debugfs, Devpts, Devtmpfs, Proc, Sysfs, Tmpfs, Tracefs,
};
use vmsh::init::MountStep::{Link, MakeDir, Mount, Probe};

const LISTING: &str = "nodev\tsysfs\nnodev\ttmpfs\n\text4\nnodev\tbpf\n";

/// All steps taken on a kernel that supports what `supported` says.
fn steps(supported: fn(Filesystem) -> bool) -> Vec<MountStep> {
    let mut step = MountStep::MakeDir(Filesystem::Devtmpfs);
    let mut out = Vec::new();
    while step != MountStep::Done {
        out.push(step);
        let outcome = match step {
            MountStep::Probe(fs) => MountOutcome::Supported(supported(fs)),
            _ => MountOutcome::Completed,
        };
        step = mount_filesystems(step, outcome).unwrap();
    }
    out
}

/// Filesystems are listed with or without `nodev`.
#[test]
fn filesystem_listed() {
    assert!(kernel_supports_fs(Some(LISTING), "sysfs"));
    assert!(kernel_supports_fs(Some(LISTING), "ext4"));
    assert!(kernel_supports_fs(Some(LISTING), "bpf"));
    assert!(!kernel_supports_fs(Some(LISTING), "ext"));
    assert!(!kernel_supports_fs(Some(LISTING), "nodev"));
    assert!(!kernel_supports_fs(Some(LISTING), "debugfs"));
}

/// Lines without a tab list nothing; what follows the first tab is the name.
#[test]
fn filesystem_listing_edges() {
    assert!(!kernel_supports_fs(None, "proc"));
    assert!(!kernel_supports_fs(Some(""), "proc"));
    assert!(!kernel_supports_fs(Some("proc\n"), "proc"));
    assert!(kernel_supports_fs(Some("\tproc"), "proc"));
    assert!(kernel_supports_fs(Some("\tproc\r\n"), "proc"));
    assert!(!kernel_supports_fs(Some("a\tb\tproc\n"), "proc"));
    assert!(kernel_supports_fs(Some("a\tb\tproc\n"), "b\tproc"));
}

/// A busy `/dev` is not an error; anything else is.
#[test]
fn busy_dev() {
    assert_eq!(mount_or_err(Filesystem::Devtmpfs, Some(16)), Ok(()));
    assert_eq!(mount_or_err(Filesystem::Devtmpfs, Some(1)), Err(1));
    assert_eq!(mount_or_err(Filesystem::Proc, Some(16)), Err(16));
    assert_eq!(mount_or_err(Filesystem::Proc, None), Ok(()));
}

/// Everything that is supported is mounted, in order.
#[test]
fn mount_everything() {
    assert_eq!(
        steps(|_| true),
        vec![
            MakeDir(Devtmpfs),
            MakeDir(Proc),
            MakeDir(Sysfs),
            Mount(Devtmpfs),
            Mount(Proc),
            Mount(Sysfs),
            Probe(Debugfs),
            MakeDir(Debugfs),
            Mount(Debugfs),
            Probe(Tracefs),
            MakeDir(Tracefs),
            Mount(Tracefs),
            Probe(Bpf),
            MakeDir(Bpf),
            Mount(Bpf),
            MakeDir(Cgroup2),
            Mount(Cgroup2),
            MakeDir(Devpts),
            MakeDir(Tmpfs),
            Mount(Devpts),
            Mount(Tmpfs),
            Link(DevLink::Fd),
            Link(DevLink::Stdin),
            Link(DevLink::Stdout),
            Link(DevLink::Stderr),
        ]
    );
}

/// What is not supported is left out.
#[test]
fn mount_supported_only() {
    let taken = steps(|fs| fs == Filesystem::Tracefs);
    assert!(!taken.contains(&MountStep::Mount(Filesystem::Debugfs)));
    assert!(taken.contains(&MountStep::Mount(Filesystem::Tracefs)));
    assert!(!taken.contains(&MountStep::Mount(Filesystem::Bpf)));
    assert!(taken.contains(&MountStep::Mount(Filesystem::Cgroup2)));
    assert_eq!(taken.len(), 21);
}

/// A required filesystem that cannot be mounted ends the mounting; others do
/// not.
#[test]
fn mount_failures() {
    let failed = MountOutcome::Failed(19);
    for fs in [
        Filesystem::Devtmpfs,
        Filesystem::Proc,
        Filesystem::Sysfs,
        Filesystem::Devpts,
        Filesystem::Tmpfs,
    ] {
        assert!(fs.required());
        assert_eq!(mount_filesystems(MountStep::Mount(fs), failed), Err(19));
    }
    assert_eq!(
        mount_filesystems(MountStep::Mount(Filesystem::Devtmpfs), MountOutcome::Failed(16)),
        Ok(MountStep::Mount(Filesystem::Proc))
    );
    assert_eq!(
        mount_filesystems(MountStep::Mount(Filesystem::Cgroup2), failed),
        Ok(MountStep::MakeDir(Filesystem::Devpts))
    );
    assert_eq!(
        mount_filesystems(MountStep::Link(DevLink::Fd), failed),
        Ok(MountStep::Link(DevLink::Stdin))
    );
}

/// Where and how filesystems are mounted.
#[test]
fn mount_arguments() {
    let bpf = Filesystem::Bpf;
    assert_eq!((bpf.source(), bpf.target(), bpf.fstype()), ("bpffs", "/sys/fs/bpf", "bpf"));
    let shm = Filesystem::Tmpfs;
    assert_eq!((shm.source(), shm.target(), shm.fstype()), ("tmpfs", "/dev/shm", "tmpfs"));
    let dev = Filesystem::Devtmpfs;
    assert_eq!((dev.source(), dev.target(), dev.fstype()), ("devtmpfs", "/dev", "devtmpfs"));

    // `MS_RELATIME`
    assert_eq!(dev.flags(), 0x200000);
    // `MS_RELATIME`, `MS_NOEXEC`, and `MS_NOSUID`
    assert_eq!(shm.flags(), 0x200000 + 8 + 2);
    assert_eq!(Filesystem::Devpts.flags(), 0x200000 + 8 + 2);
    // The same and `MS_NODEV`
    assert_eq!(bpf.flags(), 0x200000 + 8 + 2 + 4);
    assert_eq!(Filesystem::Proc.flags(), 0x200000 + 8 + 2 + 4);
}

/// The standard streams can be found below `/dev`.
#[test]
fn dev_links() {
    assert_eq!((DevLink::Fd.link(), DevLink::Fd.original()), ("/dev/fd", "/proc/self/fd"));
    assert_eq!(
        (DevLink::Stdin.link(), DevLink::Stdin.original()),
        ("/dev/stdin", "/proc/self/fd/0")
    );
    assert_eq!(
        (DevLink::Stdout.link(), DevLink::Stdout.original()),
        ("/dev/stdout", "/proc/self/fd/1")
    );
    assert_eq!(
        (DevLink::Stderr.link(), DevLink::Stderr.original()),
        ("/dev/stderr", "/proc/self/fd/2")
    );
}

/// Exit codes are reported to virtiofs only.
#[test]
fn exit_code_report() {
    assert_eq!(VIRTIOFS_MAGIC, 0x6573_5546);
    assert_eq!(KRUN_EXIT_CODE_IOCTL, 0x7602);
    assert_eq!(set_exit_code(None), ExitReport::Warn);
    assert_eq!(set_exit_code(Some(VIRTIOFS_MAGIC)), ExitReport::Report);
    assert_eq!(set_exit_code(Some(0xef53)), ExitReport::Drop);
}

/// A missing program is told apart from one that cannot be executed.
#[test]
fn exec_exit_codes() {
    // `ENOENT`
    assert_eq!(do_exec(Some(2)), 127);
    // `EACCES`
    assert_eq!(do_exec(Some(13)), 126);
    assert_eq!(do_exec(None), 126);
}
