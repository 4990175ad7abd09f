//! What the init process of the guest decides: which filesystems to mount,
//! which ports to look for, and how to end.

use vstd::prelude::*;
use vstd::utf8::encode_utf8;

use crate::bytes::{bytes_equal, find_byte, first_index};
use crate::lines::{lines, next_line};
use crate::sys::{ebusy, enoent, ms_nodev, ms_noexec, ms_nosuid, ms_relatime};

verus! {

/// The filesystems that are mounted in the guest.
#[derive(Clone, Copy, Debug, PartialEq, Eq, Structural)]
pub enum Filesystem {
    /// Device files, at `/dev`.
    Devtmpfs,
    /// Processes, at `/proc`.
    Proc,
    /// Devices and drivers, at `/sys`.
    Sysfs,
    /// Kernel debugging, at `/sys/kernel/debug`.
    Debugfs,
    /// Kernel tracing, at `/sys/kernel/tracing`.
    Tracefs,
    /// BPF objects, at `/sys/fs/bpf`.
    Bpf,
    /// Control groups, at `/sys/fs/cgroup`.
    Cgroup2,
    /// Pseudo terminals, at `/dev/pts`.
    Devpts,
    /// Shared memory, at `/dev/shm`.
    Tmpfs,
}

impl Filesystem {
    /// Where the filesystem is mounted.
    pub open spec fn spec_target(self) -> Seq<char> {
        match self {
            Filesystem::Devtmpfs => "/dev"@,
            Filesystem::Proc => "/proc"@,
            Filesystem::Sysfs => "/sys"@,
            Filesystem::Debugfs => "/sys/kernel/debug"@,
            Filesystem::Tracefs => "/sys/kernel/tracing"@,
            Filesystem::Bpf => "/sys/fs/bpf"@,
            Filesystem::Cgroup2 => "/sys/fs/cgroup"@,
            Filesystem::Devpts => "/dev/pts"@,
            Filesystem::Tmpfs => "/dev/shm"@,
        }
    }

    /// The name that the kernel has for the type of the filesystem.
    pub open spec fn spec_fstype(self) -> Seq<char> {
        match self {
            Filesystem::Devtmpfs => "devtmpfs"@,
            Filesystem::Proc => "proc"@,
            Filesystem::Sysfs => "sysfs"@,
            Filesystem::Debugfs => "debugfs"@,
            Filesystem::Tracefs => "tracefs"@,
            Filesystem::Bpf => "bpf"@,
            Filesystem::Cgroup2 => "cgroup2"@,
            Filesystem::Devpts => "devpts"@,
            Filesystem::Tmpfs => "tmpfs"@,
        }
    }

    /// The name that the mount goes by.
    pub open spec fn spec_source(self) -> Seq<char> {
        if self == Filesystem::Bpf {
            "bpffs"@
        } else {
            self.spec_fstype()
        }
    }

    /// The flags to mount the filesystem with: `MS_RELATIME` for all,
    /// `MS_NOSUID` and `MS_NOEXEC` for all but `/dev`, and `MS_NODEV` for what
    /// is not below `/dev`.
    pub open spec fn spec_flags(self) -> u64 {
        match self {
            Filesystem::Devtmpfs => 0x200000,
            Filesystem::Devpts | Filesystem::Tmpfs => 0x20000a,
            _ => 0x20000e,
        }
    }

    /// Whether the guest cannot do without the filesystem.
    pub open spec fn spec_required(self) -> bool {
        match self {
            Filesystem::Devtmpfs | Filesystem::Proc | Filesystem::Sysfs | Filesystem::Devpts
            | Filesystem::Tmpfs => true,
            _ => false,
        }
    }

    /// Where to mount the filesystem.
    pub fn target(self) -> (r: &'static str)
        ensures
            r@ == self.spec_target(),
    {
        match self {
            Filesystem::Devtmpfs => "/dev",
            Filesystem::Proc => "/proc",
            Filesystem::Sysfs => "/sys",
            Filesystem::Debugfs => "/sys/kernel/debug",
            Filesystem::Tracefs => "/sys/kernel/tracing",
            Filesystem::Bpf => "/sys/fs/bpf",
            Filesystem::Cgroup2 => "/sys/fs/cgroup",
            Filesystem::Devpts => "/dev/pts",
            Filesystem::Tmpfs => "/dev/shm",
        }
    }

    /// The name that the kernel has for the type of the filesystem.
    pub fn fstype(self) -> (r: &'static str)
        ensures
            r@ == self.spec_fstype(),
    {
        match self {
            Filesystem::Devtmpfs => "devtmpfs",
            Filesystem::Proc => "proc",
            Filesystem::Sysfs => "sysfs",
            Filesystem::Debugfs => "debugfs",
            Filesystem::Tracefs => "tracefs",
            Filesystem::Bpf => "bpf",
            Filesystem::Cgroup2 => "cgroup2",
            Filesystem::Devpts => "devpts",
            Filesystem::Tmpfs => "tmpfs",
        }
    }

    /// The name that the mount goes by.
    pub fn source(self) -> (r: &'static str)
        ensures
            r@ == self.spec_source(),
    {
        if self == Filesystem::Bpf {
            "bpffs"
        } else {
            self.fstype()
        }
    }

    /// The flags to mount the filesystem with.
    pub fn flags(self) -> (r: u64)
        ensures
            r == self.spec_flags(),
    {
        proof {
            assert(0x8u64 | 0x2 | 0x200000 == 0x20000a) by (bit_vector);
            assert(0x4u64 | 0x8 | 0x2 | 0x200000 == 0x20000e) by (bit_vector);
        }
        match self {
            Filesystem::Devtmpfs => ms_relatime(),
            Filesystem::Devpts | Filesystem::Tmpfs => ms_noexec() | ms_nosuid() | ms_relatime(),
            _ => ms_nodev() | ms_noexec() | ms_nosuid() | ms_relatime(),
        }
    }

    /// Whether the guest cannot do without the filesystem.
    pub fn required(self) -> (r: bool)
        ensures
            r == self.spec_required(),
    {
        match self {
            Filesystem::Devtmpfs | Filesystem::Proc | Filesystem::Sysfs | Filesystem::Devpts
            | Filesystem::Tmpfs => true,
            _ => false,
        }
    }
}

/// A line of `/proc/filesystems` that lists the type `fstype`: the name
/// follows the first tab.
pub open spec fn lists_fs(line: Seq<u8>, fstype: Seq<u8>) -> bool {
    let tab = first_index(line, 0x09);
    tab < line.len() && line.skip(tab as int + 1) == fstype
}

/// Check whether the kernel supports a filesystem type.
///
/// `content` is that of `/proc/filesystems`, `None` if it could not be read.
/// Each of its lines is either `nodev\t<fstype>` or `\t<fstype>`.
pub fn kernel_supports_fs(content: Option<&str>, fstype: &str) -> (r: bool)
    ensures
        r == (content matches Some(content) && exists|i: int|
            0 <= i < lines(encode_utf8(content@)).len() && lists_fs(
                #[trigger] lines(encode_utf8(content@))[i],
                encode_utf8(fstype@),
            )),
{
    let text = match content {
        Some(content) => content.as_bytes(),
        None => {
            return false;
        },
    };
    let name = fstype.as_bytes();
    let ghost all = lines(text@);
    let mut pos: usize = 0;
    assert(text@.skip(0) =~= text@);
    let ghost mut seen: int = 0;
    while pos < text.len()
        invariant
            pos <= text@.len(),
            content matches Some(content) && text@ == encode_utf8(content@),
            name@ == encode_utf8(fstype@),
            all == lines(text@),
            0 <= seen <= all.len(),
            lines(text@.skip(pos as int)) == all.skip(seen),
            forall|i: int| 0 <= i < seen ==> !lists_fs(#[trigger] all[i], name@),
        decreases text@.len() - pos,
    {
        let (end, next) = next_line(text, pos);
        let line = vstd::slice::slice_subrange(text, pos, end);
        proof {
            let here = lines(text@.skip(pos as int));
            assert(here[0] == line@);
            assert(here.len() > 0);
            assert(all[seen] == line@);
            assert(here.drop_first() =~= lines(text@.skip(next as int)));
            assert(here.drop_first() =~= all.skip(seen + 1));
        }
        let tab: usize = find_byte(line, 0x09);
        if tab < line.len() {
            let listed = vstd::slice::slice_subrange(line, tab + 1, line.len());
            assert(listed@ =~= line@.skip(tab + 1));
            if bytes_equal(listed, name) {
                assert(lists_fs(all[seen], name@));
                return true;
            }
        }
        proof {
            seen = seen + 1;
        }
        pos = next;
    }
    assert(lines(text@.skip(pos as int)) =~= Seq::<Seq<u8>>::empty());
    false
}

/// Decide whether a mount may be considered successful. `errno` is the error
/// number if it failed.
///
/// A busy `/dev` is fine: it is mounted already.
pub fn mount_or_err(fs: Filesystem, errno: Option<i32>) -> (r: Result<(), i32>)
    ensures
        r == match errno {
            Some(errno) => if fs == Filesystem::Devtmpfs && errno == 16 {
                Ok::<(), i32>(())
            } else {
                Err(errno)
            },
            None => Ok(()),
        },
{
    match errno {
        Some(errno) => {
            if fs == Filesystem::Devtmpfs && errno == ebusy() {
                Ok(())
            } else {
                Err(errno)
            }
        },
        None => Ok(()),
    }
}

/// The links that are made below `/dev`.
#[derive(Clone, Copy, Debug, PartialEq, Eq, Structural)]
pub enum DevLink {
    /// `/dev/fd`
    Fd,
    /// `/dev/stdin`
    Stdin,
    /// `/dev/stdout`
    Stdout,
    /// `/dev/stderr`
    Stderr,
}

impl DevLink {
    /// What the link points to.
    pub open spec fn spec_original(self) -> Seq<char> {
        match self {
            DevLink::Fd => "/proc/self/fd"@,
            DevLink::Stdin => "/proc/self/fd/0"@,
            DevLink::Stdout => "/proc/self/fd/1"@,
            DevLink::Stderr => "/proc/self/fd/2"@,
        }
    }

    /// The path of the link.
    pub open spec fn spec_link(self) -> Seq<char> {
        match self {
            DevLink::Fd => "/dev/fd"@,
            DevLink::Stdin => "/dev/stdin"@,
            DevLink::Stdout => "/dev/stdout"@,
            DevLink::Stderr => "/dev/stderr"@,
        }
    }

    /// What the link points to.
    pub fn original(self) -> (r: &'static str)
        ensures
            r@ == self.spec_original(),
    {
        match self {
            DevLink::Fd => "/proc/self/fd",
            DevLink::Stdin => "/proc/self/fd/0",
            DevLink::Stdout => "/proc/self/fd/1",
            DevLink::Stderr => "/proc/self/fd/2",
        }
    }

    /// The path of the link.
    pub fn link(self) -> (r: &'static str)
        ensures
            r@ == self.spec_link(),
    {
        match self {
            DevLink::Fd => "/dev/fd",
            DevLink::Stdin => "/dev/stdin",
            DevLink::Stdout => "/dev/stdout",
            DevLink::Stderr => "/dev/stderr",
        }
    }
}

/// The steps of mounting the filesystems of the guest.
#[derive(Clone, Copy, Debug, PartialEq, Eq, Structural)]
pub enum MountStep {
    /// Make the directory for a filesystem; it may be there already.
    MakeDir(Filesystem),
    /// Mount a filesystem.
    Mount(Filesystem),
    /// Find out whether the kernel supports a filesystem.
    Probe(Filesystem),
    /// Make a link; it may be there already.
    Link(DevLink),
    /// Nothing is left to do.
    Done,
}

/// How a step went.
#[derive(Clone, Copy, Debug, PartialEq, Eq, Structural)]
pub enum MountOutcome {
    /// The step was taken.
    Completed,
    /// The step failed, with an error number.
    Failed(i32),
    /// Whether the kernel supports the filesystem that was probed for.
    Supported(bool),
}

/// The step that follows `step`; `supported` is the answer to a probe.
pub open spec fn next_step(step: MountStep, supported: bool) -> MountStep {
    match step {
        MountStep::MakeDir(Filesystem::Devtmpfs) => MountStep::MakeDir(Filesystem::Proc),
        MountStep::MakeDir(Filesystem::Proc) => MountStep::MakeDir(Filesystem::Sysfs),
        MountStep::MakeDir(Filesystem::Sysfs) => MountStep::Mount(Filesystem::Devtmpfs),
        MountStep::Mount(Filesystem::Devtmpfs) => MountStep::Mount(Filesystem::Proc),
        MountStep::Mount(Filesystem::Proc) => MountStep::Mount(Filesystem::Sysfs),
        MountStep::Mount(Filesystem::Sysfs) => MountStep::Probe(Filesystem::Debugfs),
        MountStep::Probe(Filesystem::Debugfs) => if supported {
            MountStep::MakeDir(Filesystem::Debugfs)
        } else {
            MountStep::Probe(Filesystem::Tracefs)
        },
        MountStep::MakeDir(Filesystem::Debugfs) => MountStep::Mount(Filesystem::Debugfs),
        MountStep::Mount(Filesystem::Debugfs) => MountStep::Probe(Filesystem::Tracefs),
        MountStep::Probe(Filesystem::Tracefs) => if supported {
            MountStep::MakeDir(Filesystem::Tracefs)
        } else {
            MountStep::Probe(Filesystem::Bpf)
        },
        MountStep::MakeDir(Filesystem::Tracefs) => MountStep::Mount(Filesystem::Tracefs),
        MountStep::Mount(Filesystem::Tracefs) => MountStep::Probe(Filesystem::Bpf),
        MountStep::Probe(Filesystem::Bpf) => if supported {
            MountStep::MakeDir(Filesystem::Bpf)
        } else {
            MountStep::MakeDir(Filesystem::Cgroup2)
        },
        MountStep::MakeDir(Filesystem::Bpf) => MountStep::Mount(Filesystem::Bpf),
        MountStep::Mount(Filesystem::Bpf) => MountStep::MakeDir(Filesystem::Cgroup2),
        MountStep::MakeDir(Filesystem::Cgroup2) => MountStep::Mount(Filesystem::Cgroup2),
        MountStep::Mount(Filesystem::Cgroup2) => MountStep::MakeDir(Filesystem::Devpts),
        MountStep::MakeDir(Filesystem::Devpts) => MountStep::MakeDir(Filesystem::Tmpfs),
        MountStep::MakeDir(Filesystem::Tmpfs) => MountStep::Mount(Filesystem::Devpts),
        MountStep::Mount(Filesystem::Devpts) => MountStep::Mount(Filesystem::Tmpfs),
        MountStep::Mount(Filesystem::Tmpfs) => MountStep::Link(DevLink::Fd),
        MountStep::Link(DevLink::Fd) => MountStep::Link(DevLink::Stdin),
        MountStep::Link(DevLink::Stdin) => MountStep::Link(DevLink::Stdout),
        MountStep::Link(DevLink::Stdout) => MountStep::Link(DevLink::Stderr),
        MountStep::Link(DevLink::Stderr) => MountStep::Done,
        MountStep::Probe(_) => MountStep::Done,
        MountStep::Done => MountStep::Done,
    }
}

/// The error number that ends the mounting, if the step fails for good: a
/// required filesystem could not be mounted, other than a busy `/dev`.
pub open spec fn fatal_error(step: MountStep, outcome: MountOutcome) -> Option<i32> {
    match (step, outcome) {
        (MountStep::Mount(fs), MountOutcome::Failed(errno)) => if fs.spec_required() && !(fs
            == Filesystem::Devtmpfs && errno == 16) {
            Some(errno)
        } else {
            None
        },
        _ => None,
    }
}

/// The outcome of taking `step`: the next step, or the error number that ends
/// the mounting.
pub open spec fn mount_step_result(step: MountStep, outcome: MountOutcome) -> Result<
    MountStep,
    i32,
> {
    match fatal_error(step, outcome) {
        Some(errno) => Err(errno),
        None => Ok(next_step(step, outcome == MountOutcome::Supported(true))),
    }
}

/// Mount various filesystems, step by step: decide what to do after `step`
/// went as `outcome` says. The first step is to make the directory for
/// [`Filesystem::Devtmpfs`].
pub fn mount_filesystems(step: MountStep, outcome: MountOutcome) -> (r: Result<MountStep, i32>)
    ensures
        r == mount_step_result(step, outcome),
{
    if let MountStep::Mount(fs) = step {
        if fs.required() {
            if let MountOutcome::Failed(errno) = outcome {
                match mount_or_err(fs, Some(errno)) {
                    Ok(()) => {},
                    Err(errno) => {
                        return Err(errno);
                    },
                }
            }
        }
    }
    let supported = match outcome {
        MountOutcome::Supported(supported) => supported,
        _ => false,
    };
    let next = match step {
        MountStep::MakeDir(fs) => match fs {
            Filesystem::Devtmpfs => MountStep::MakeDir(Filesystem::Proc),
            Filesystem::Proc => MountStep::MakeDir(Filesystem::Sysfs),
            Filesystem::Sysfs => MountStep::Mount(Filesystem::Devtmpfs),
            Filesystem::Devpts => MountStep::MakeDir(Filesystem::Tmpfs),
            Filesystem::Tmpfs => MountStep::Mount(Filesystem::Devpts),
            _ => MountStep::Mount(fs),
        },
        MountStep::Mount(fs) => match fs {
            Filesystem::Devtmpfs => MountStep::Mount(Filesystem::Proc),
            Filesystem::Proc => MountStep::Mount(Filesystem::Sysfs),
            Filesystem::Sysfs => MountStep::Probe(Filesystem::Debugfs),
            Filesystem::Debugfs => MountStep::Probe(Filesystem::Tracefs),
            Filesystem::Tracefs => MountStep::Probe(Filesystem::Bpf),
            Filesystem::Bpf => MountStep::MakeDir(Filesystem::Cgroup2),
            Filesystem::Cgroup2 => MountStep::MakeDir(Filesystem::Devpts),
            Filesystem::Devpts => MountStep::Mount(Filesystem::Tmpfs),
            Filesystem::Tmpfs => MountStep::Link(DevLink::Fd),
        },
        MountStep::Probe(fs) => match fs {
            Filesystem::Debugfs => if supported {
                MountStep::MakeDir(fs)
            } else {
                MountStep::Probe(Filesystem::Tracefs)
            },
            Filesystem::Tracefs => if supported {
                MountStep::MakeDir(fs)
            } else {
                MountStep::Probe(Filesystem::Bpf)
            },
            Filesystem::Bpf => if supported {
                MountStep::MakeDir(fs)
            } else {
                MountStep::MakeDir(Filesystem::Cgroup2)
            },
            _ => MountStep::Done,
        },
        MountStep::Link(link) => match link {
            DevLink::Fd => MountStep::Link(DevLink::Stdin),
            DevLink::Stdin => MountStep::Link(DevLink::Stdout),
            DevLink::Stdout => MountStep::Link(DevLink::Stderr),
            DevLink::Stderr => MountStep::Done,
        },
        MountStep::Done => MountStep::Done,
    };
    Ok(next)
}

/// Which of the filesystems that are probed for the kernel supports.
#[derive(Clone, Copy, Debug)]
pub struct Support {
    /// Kernel debugging.
    pub debugfs: bool,
    /// Kernel tracing.
    pub tracefs: bool,
    /// BPF objects.
    pub bpf: bool,
}

/// Whether `fs` is supported; those that are not probed for are.
pub open spec fn supports(support: Support, fs: Filesystem) -> bool {
    match fs {
        Filesystem::Debugfs => support.debugfs,
        Filesystem::Tracefs => support.tracefs,
        Filesystem::Bpf => support.bpf,
        _ => true,
    }
}

/// The steps for a filesystem that may not be supported.
pub open spec fn optional_steps(support: Support, fs: Filesystem) -> Seq<MountStep> {
    if supports(support, fs) {
        seq![MountStep::Probe(fs), MountStep::MakeDir(fs), MountStep::Mount(fs)]
    } else {
        seq![MountStep::Probe(fs)]
    }
}

/// All steps that are taken on a kernel with the given support, in order.
#[verifier::opaque]
pub open spec fn mount_script(support: Support) -> Seq<MountStep> {
    seq![
        MountStep::MakeDir(Filesystem::Devtmpfs),
        MountStep::MakeDir(Filesystem::Proc),
        MountStep::MakeDir(Filesystem::Sysfs),
        MountStep::Mount(Filesystem::Devtmpfs),
        MountStep::Mount(Filesystem::Proc),
        MountStep::Mount(Filesystem::Sysfs),
    ] + optional_steps(support, Filesystem::Debugfs) + optional_steps(
        support,
        Filesystem::Tracefs,
    ) + optional_steps(support, Filesystem::Bpf) + seq![
        MountStep::MakeDir(Filesystem::Cgroup2),
        MountStep::Mount(Filesystem::Cgroup2),
        MountStep::MakeDir(Filesystem::Devpts),
        MountStep::MakeDir(Filesystem::Tmpfs),
        MountStep::Mount(Filesystem::Devpts),
        MountStep::Mount(Filesystem::Tmpfs),
        MountStep::Link(DevLink::Fd),
        MountStep::Link(DevLink::Stdin),
        MountStep::Link(DevLink::Stdout),
        MountStep::Link(DevLink::Stderr),
    ]
}

/// The step reached after steps went as `outcomes` say, one after the other.
pub open spec fn mounting(outcomes: Seq<MountOutcome>) -> Result<MountStep, i32>
    decreases outcomes.len(),
{
    if outcomes.len() == 0 {
        Ok(MountStep::MakeDir(Filesystem::Devtmpfs))
    } else {
        match mounting(outcomes.drop_last()) {
            Ok(step) => mount_step_result(step, outcomes.last()),
            Err(errno) => Err(errno),
        }
    }
}

/// Mounting starts with the first step of the script.
proof fn lemma_mount_script_first(support: Support)
    ensures
        mount_script(support).len() > 0,
        mount_script(support)[0] == MountStep::MakeDir(Filesystem::Devtmpfs),
{
    reveal(mount_script);
}

/// Each step of the script leads to the one after it.
proof fn lemma_mount_script(support: Support, i: int)
    requires
        0 <= i < mount_script(support).len(),
    ensures
        next_step(
            mount_script(support)[i],
            mount_script(support)[i] matches MountStep::Probe(fs) && supports(support, fs),
        ) == if i + 1 < mount_script(support).len() {
            mount_script(support)[i + 1]
        } else {
            MountStep::Done
        },
{
    reveal(mount_script);
    assert(i < 25);
}

/// The outcomes answer each probe of the script as `support` says, and answer
/// nothing else with support.
pub open spec fn answers(support: Support, outcomes: Seq<MountOutcome>) -> bool {
    forall|i: int|
        0 <= i < outcomes.len() && i < mount_script(support).len() ==> (#[trigger] outcomes[i]
            == MountOutcome::Supported(true)) == (mount_script(support)[i] matches MountStep::Probe(
            fs,
        ) && supports(support, fs))
}

/// Without the last of them, outcomes answer the probes as well.
proof fn lemma_answers_init(support: Support, outcomes: Seq<MountOutcome>)
    requires
        outcomes.len() > 0,
        answers(support, outcomes),
    ensures
        answers(support, outcomes.drop_last()),
{
    let init = outcomes.drop_last();
    assert forall|i: int| 0 <= i < init.len() && i < mount_script(support).len() implies (
    #[trigger] init[i] == MountOutcome::Supported(true)) == (mount_script(
        support,
    )[i] matches MountStep::Probe(fs) && supports(support, fs)) by {
        assert(init[i] == outcomes[i]);
    }
}

/// As long as no required filesystem fails to mount, the steps taken are just
/// those of the script, in its order; after the last one nothing is left to
/// do.
pub proof fn mounting_follows_script(support: Support, outcomes: Seq<MountOutcome>)
    requires
        outcomes.len() <= mount_script(support).len(),
        answers(support, outcomes),
        mounting(outcomes) is Ok,
    ensures
        mounting(outcomes)->Ok_0 == if outcomes.len() < mount_script(support).len() {
            mount_script(support)[outcomes.len() as int]
        } else {
            MountStep::Done
        },
    decreases outcomes.len(),
{
    lemma_mount_script_first(support);
    if outcomes.len() > 0 {
        let init = outcomes.drop_last();
        lemma_answers_init(support, outcomes);
        mounting_follows_script(support, init);
        lemma_mount_script(support, init.len() as int);
        assert(outcomes.last() == outcomes[init.len() as int]);
    }
}

/// Mounting goes on whatever happens, other than that a required filesystem
/// fails to mount: then it ends with the error number of the first such
/// failure.
pub proof fn only_required_filesystems_matter(
    support: Support,
    outcomes: Seq<MountOutcome>,
    at: int,
)
    requires
        0 <= at <= outcomes.len() <= mount_script(support).len(),
        answers(support, outcomes),
        forall|i: int|
            0 <= i < at ==> fatal_error(#[trigger] mount_script(support)[i], outcomes[i]) is None,
        at < outcomes.len() ==> fatal_error(mount_script(support)[at], outcomes[at]) is Some,
    ensures
        mounting(outcomes) is Err <==> at < outcomes.len(),
        at < outcomes.len() ==> mounting(outcomes) == Err::<MountStep, i32>(
            fatal_error(mount_script(support)[at], outcomes[at])->0,
        ),
    decreases outcomes.len(),
{
    if outcomes.len() > 0 {
        let init = outcomes.drop_last();
        let last = init.len() as int;
        lemma_answers_init(support, outcomes);
        if at < outcomes.len() - 1 {
            only_required_filesystems_matter(support, init, at);
        } else {
            only_required_filesystems_matter(support, init, last);
            mounting_follows_script(support, init);
            assert(outcomes.last() == outcomes[last]);
        }
    }
}

/// A filesystem is mounted only after the directory for it was made, and, if
/// it may not be supported, only if it is.
pub proof fn directories_come_first(support: Support, at: int, fs: Filesystem)
    requires
        0 <= at < mount_script(support).len(),
        mount_script(support)[at] == MountStep::Mount(fs),
    ensures
        supports(support, fs),
        exists|i: int| 0 <= i < at && mount_script(support)[i] == MountStep::MakeDir(fs),
{
    reveal(mount_script);
    let all = mount_script(support);
    assert(at < 25);
    if fs.spec_required() && fs != Filesystem::Devpts && fs != Filesystem::Tmpfs {
        assert(all[0] == MountStep::MakeDir(Filesystem::Devtmpfs));
        assert(all[1] == MountStep::MakeDir(Filesystem::Proc));
        assert(all[2] == MountStep::MakeDir(Filesystem::Sysfs));
    } else if fs == Filesystem::Devpts || fs == Filesystem::Tmpfs {
        assert(all[at - 2] == MountStep::MakeDir(fs));
    } else {
        assert(all[at - 1] == MountStep::MakeDir(fs));
    }
}

/// virtiofs magic number from `statfs`.
pub const VIRTIOFS_MAGIC: u64 = 0x6573_5546;

/// Ioctl number used by libkrun's virtiofs to communicate exit codes.
pub const KRUN_EXIT_CODE_IOCTL: u64 = 0x7602;

/// What to do with an exit code.
#[derive(Clone, Copy, Debug, PartialEq, Eq, Structural)]
pub enum ExitReport {
    /// Warn that the root filesystem cannot be examined.
    Warn,
    /// Drop the exit code: the root filesystem does not take it.
    Drop,
    /// Report the exit code to the root filesystem.
    Report,
}

/// Decide what to do with an exit code, given the type of the root filesystem
/// as `statfs` reports it, if it does.
pub fn set_exit_code(fs_type: Option<u64>) -> (r: ExitReport)
    ensures
        r == match fs_type {
            None => ExitReport::Warn,
            Some(fs_type) => if fs_type == VIRTIOFS_MAGIC {
                ExitReport::Report
            } else {
                ExitReport::Drop
            },
        },
{
    match fs_type {
        None => ExitReport::Warn,
        Some(fs_type) => {
            if fs_type == VIRTIOFS_MAGIC {
                ExitReport::Report
            } else {
                ExitReport::Drop
            }
        },
    }
}

/// Determine the exit code for a program that could not be executed, from the
/// error number if there is one: 127 if it is missing, and 126 otherwise.
pub fn do_exec(errno: Option<i32>) -> (r: i32)
    ensures
        r == if errno == Some(2i32) {
            127i32
        } else {
            126
        },
{
    match errno {
        Some(errno) => {
            if errno == enoent() {
                127
            } else {
                126
            }
        },
        None => 126,
    }
}

/// Where each filesystem is mounted, of which type it is, and by which name it
/// goes.
pub proof fn mount_points()
    ensures
        Filesystem::Devtmpfs.spec_target() == "/dev"@,
        Filesystem::Proc.spec_target() == "/proc"@,
        Filesystem::Sysfs.spec_target() == "/sys"@,
        Filesystem::Debugfs.spec_target() == "/sys/kernel/debug"@,
        Filesystem::Tracefs.spec_target() == "/sys/kernel/tracing"@,
        Filesystem::Bpf.spec_target() == "/sys/fs/bpf"@,
        Filesystem::Cgroup2.spec_target() == "/sys/fs/cgroup"@,
        Filesystem::Devpts.spec_target() == "/dev/pts"@,
        Filesystem::Tmpfs.spec_target() == "/dev/shm"@,
        Filesystem::Devtmpfs.spec_fstype() == "devtmpfs"@,
        Filesystem::Proc.spec_fstype() == "proc"@,
        Filesystem::Sysfs.spec_fstype() == "sysfs"@,
        Filesystem::Debugfs.spec_fstype() == "debugfs"@,
        Filesystem::Tracefs.spec_fstype() == "tracefs"@,
        Filesystem::Bpf.spec_fstype() == "bpf"@,
        Filesystem::Cgroup2.spec_fstype() == "cgroup2"@,
        Filesystem::Devpts.spec_fstype() == "devpts"@,
        Filesystem::Tmpfs.spec_fstype() == "tmpfs"@,
        Filesystem::Bpf.spec_source() == "bpffs"@,
        forall|fs: Filesystem|
            fs != Filesystem::Bpf ==> #[trigger] fs.spec_source() == fs.spec_fstype(),
{
}

/// Every filesystem but those at the top is mounted below the one that provides
/// its directory, and the links below `/dev` lead to where the processes are.
pub proof fn mount_points_are_nested(fs: Filesystem, link: DevLink)
    ensures
        ({
            let dev = Filesystem::Devtmpfs.spec_target() + "/"@;
            let sys = Filesystem::Sysfs.spec_target() + "/"@;
            let proc = Filesystem::Proc.spec_target() + "/"@;
            &&& fs == Filesystem::Devpts || fs == Filesystem::Tmpfs <==> dev.is_prefix_of(
                fs.spec_target(),
            )
            &&& fs == Filesystem::Debugfs || fs == Filesystem::Tracefs || fs == Filesystem::Bpf
                || fs == Filesystem::Cgroup2 <==> sys.is_prefix_of(fs.spec_target())
            &&& dev.is_prefix_of(link.spec_link())
            &&& proc.is_prefix_of(link.spec_original())
        }),
{
    reveal_strlit("/");
    reveal_strlit("/dev");
    reveal_strlit("/proc");
    reveal_strlit("/sys");
    reveal_strlit("/sys/kernel/debug");
    reveal_strlit("/sys/kernel/tracing");
    reveal_strlit("/sys/fs/bpf");
    reveal_strlit("/sys/fs/cgroup");
    reveal_strlit("/dev/pts");
    reveal_strlit("/dev/shm");
    reveal_strlit("/dev/fd");
    reveal_strlit("/dev/stdin");
    reveal_strlit("/dev/stdout");
    reveal_strlit("/dev/stderr");
    reveal_strlit("/proc/self/fd");
    reveal_strlit("/proc/self/fd/0");
    reveal_strlit("/proc/self/fd/1");
    reveal_strlit("/proc/self/fd/2");
    let dev = Filesystem::Devtmpfs.spec_target() + "/"@;
    let sys = Filesystem::Sysfs.spec_target() + "/"@;
    let proc = Filesystem::Proc.spec_target() + "/"@;
    let target = fs.spec_target();
    if target.len() >= 5 {
        let start = target.subrange(0, 5);
        assert(start[1] == target[1]);
        if fs == Filesystem::Devpts || fs == Filesystem::Tmpfs {
            assert(dev =~= start);
            assert(sys[1] != start[1]);
        } else if fs != Filesystem::Proc {
            assert(sys =~= start);
            assert(dev[1] != start[1]);
        } else {
            assert(sys[1] != start[1]);
            assert(dev[1] != start[1]);
        }
    }
    assert(dev =~= link.spec_link().subrange(0, 5));
    assert(proc =~= link.spec_original().subrange(0, 6));
}

/// What each link below `/dev` is called, and where it leads.
pub proof fn links_lead_to_streams()
    ensures
        DevLink::Fd.spec_link() == "/dev/fd"@ && DevLink::Fd.spec_original() == "/proc/self/fd"@,
        DevLink::Stdin.spec_link() == "/dev/stdin"@ && DevLink::Stdin.spec_original()
            == "/proc/self/fd/0"@,
        DevLink::Stdout.spec_link() == "/dev/stdout"@ && DevLink::Stdout.spec_original()
            == "/proc/self/fd/1"@,
        DevLink::Stderr.spec_link() == "/dev/stderr"@ && DevLink::Stderr.spec_original()
            == "/proc/self/fd/2"@,
{
}

/// The flags of each mount: access times are relative (`0x200000`) for all, no
/// programs (`8`) and no set-user-ID bits (`2`) for all but `/dev`, and no device
/// files (`4`) for all that is not at or below `/dev`.
pub proof fn mount_flags(fs: Filesystem)
    ensures
        fs.spec_flags() == 0x200000 + (if fs == Filesystem::Devtmpfs {
            0int
        } else {
            10
        }) + (if fs == Filesystem::Devtmpfs || fs == Filesystem::Devpts || fs == Filesystem::Tmpfs {
            0int
        } else {
            4
        }),
{
}

/// Which failures end the mounting: those of `/dev`, `/proc`, `/sys`,
/// `/dev/pts`, and `/dev/shm`, with the error number of the failure, other than
/// that `/dev` is busy (`16`). Nothing else does.
pub proof fn fatal_failures(step: MountStep, outcome: MountOutcome, errno: i32)
    ensures
        mount_step_result(step, outcome) == Err::<MountStep, i32>(errno) <==> outcome
            == MountOutcome::Failed(errno) && (step == MountStep::Mount(Filesystem::Proc) || step
            == MountStep::Mount(Filesystem::Sysfs) || step == MountStep::Mount(Filesystem::Devpts)
            || step == MountStep::Mount(Filesystem::Tmpfs) || (step == MountStep::Mount(
            Filesystem::Devtmpfs,
        ) && errno != 16)),
        forall|fs: Filesystem| #[trigger]
            fs.spec_required() <==> fs == Filesystem::Devtmpfs || fs == Filesystem::Proc || fs
                == Filesystem::Sysfs || fs == Filesystem::Devpts || fs == Filesystem::Tmpfs,
{
}

/// What is mounted on a kernel: the steps at the beginning and at the end are
/// taken on every kernel. In between, each of debugfs, tracefs, and bpf is looked
/// for and, if it is supported, gets a directory and is mounted there.
pub proof fn mount_order(support: Support)
    ensures
        ({
            let all = mount_script(support);
            let debugfs = if support.debugfs {
                3int
            } else {
                1
            };
            let tracefs = if support.tracefs {
                3int
            } else {
                1
            };
            let bpf = if support.bpf {
                3int
            } else {
                1
            };
            let t = 6 + debugfs;
            let b = t + tracefs;
            let e = b + bpf;
            &&& all.len() == e + 10
            &&& all[0] == MountStep::MakeDir(Filesystem::Devtmpfs)
            &&& all[1] == MountStep::MakeDir(Filesystem::Proc)
            &&& all[2] == MountStep::MakeDir(Filesystem::Sysfs)
            &&& all[3] == MountStep::Mount(Filesystem::Devtmpfs)
            &&& all[4] == MountStep::Mount(Filesystem::Proc)
            &&& all[5] == MountStep::Mount(Filesystem::Sysfs)
            &&& all[6] == MountStep::Probe(Filesystem::Debugfs)
            &&& support.debugfs ==> all[7] == MountStep::MakeDir(Filesystem::Debugfs) && all[8]
                == MountStep::Mount(Filesystem::Debugfs)
            &&& all[t] == MountStep::Probe(Filesystem::Tracefs)
            &&& support.tracefs ==> all[t + 1] == MountStep::MakeDir(Filesystem::Tracefs) && all[t
                + 2] == MountStep::Mount(Filesystem::Tracefs)
            &&& all[b] == MountStep::Probe(Filesystem::Bpf)
            &&& support.bpf ==> all[b + 1] == MountStep::MakeDir(Filesystem::Bpf) && all[b + 2]
                == MountStep::Mount(Filesystem::Bpf)
            &&& all[e] == MountStep::MakeDir(Filesystem::Cgroup2)
            &&& all[e + 1] == MountStep::Mount(Filesystem::Cgroup2)
            &&& all[e + 2] == MountStep::MakeDir(Filesystem::Devpts)
            &&& all[e + 3] == MountStep::MakeDir(Filesystem::Tmpfs)
            &&& all[e + 4] == MountStep::Mount(Filesystem::Devpts)
            &&& all[e + 5] == MountStep::Mount(Filesystem::Tmpfs)
            &&& all[e + 6] == MountStep::Link(DevLink::Fd)
            &&& all[e + 7] == MountStep::Link(DevLink::Stdin)
            &&& all[e + 8] == MountStep::Link(DevLink::Stdout)
            &&& all[e + 9] == MountStep::Link(DevLink::Stderr)
        }),
{
    reveal(mount_script);
}

/// A line lists the filesystem that is named behind its first tab, whatever
/// precedes the tab, and no other one. A line without a tab lists none.
pub proof fn filesystems_are_listed_by_name(before: Seq<u8>, name: Seq<u8>, fstype: Seq<u8>)
    requires
        forall|i: int| 0 <= i < before.len() ==> before[i] != 0x09,
    ensures
        lists_fs(before + seq![0x09u8] + name, fstype) <==> name == fstype,
        !lists_fs(before, fstype),
{
    let line = before + seq![0x09u8] + name;
    let n = before.len() as int;
    assert forall|j: int| 0 <= j < n implies line[j] != 0x09 by {
        assert(line[j] == before[j]);
    }
    crate::bytes::lemma_first_index(line, 0x09, n);
    assert(line.skip(n + 1) =~= name);
    crate::bytes::lemma_first_index(before, 0x09, n);
}

} // verus!
