//! Names of temporary files.

use vstd::prelude::*;
use vstd::string::*;

use crate::text::{decimal, lemma_decimal_injective, push_decimal};

verus! {

/// The temporary files that a `vmsh` process creates.
#[derive(Clone, Copy, Debug, PartialEq, Eq, Structural)]
pub enum TempFile {
    /// The init binary, in the directory for temporary files. It is visible in
    /// the guest.
    Init,
    /// A copy of the running binary, in the directory for temporary files.
    Copy,
    /// The kernel that was extracted from the running binary, with its
    /// directory.
    Kernel,
}

impl TempFile {
    /// What the name of the file starts with.
    pub open spec fn prefix(self) -> Seq<char> {
        match self {
            TempFile::Init => "vmsh-init-"@,
            TempFile::Copy => "vmsh-embed-"@,
            TempFile::Kernel => "/tmp/vmsh-kernel-"@,
        }
    }

    /// The name of the file of the process `pid`.
    pub open spec fn spec_name(self, pid: u32) -> Seq<char> {
        self.prefix() + decimal(pid as nat)
    }

    /// The name of the file of the process `pid`.
    pub fn name(self, pid: u32) -> (r: String)
        ensures
            r@ == self.spec_name(pid),
    {
        let prefix = match self {
            TempFile::Init => "vmsh-init-",
            TempFile::Copy => "vmsh-embed-",
            TempFile::Kernel => "/tmp/vmsh-kernel-",
        };
        let mut out = prefix.to_owned();
        push_decimal(&mut out, pid as u64);
        out
    }
}

/// No two temporary files share a name, neither within a process nor between
/// processes.
pub proof fn names_differ(a: TempFile, b: TempFile, p: u32, q: u32)
    ensures
        a.spec_name(p) == b.spec_name(q) <==> a == b && p == q,
{
    reveal_strlit("vmsh-init-");
    reveal_strlit("vmsh-embed-");
    reveal_strlit("/tmp/vmsh-kernel-");
    if a.spec_name(p) == b.spec_name(q) {
        assert(a.spec_name(p)[0] == a.prefix()[0]);
        assert(b.spec_name(q)[0] == b.prefix()[0]);
        assert(a.spec_name(p)[5] == a.prefix()[5]);
        assert(b.spec_name(q)[5] == b.prefix()[5]);
        assert(a == b);
        let n = a.prefix().len() as int;
        assert(a.spec_name(p).skip(n) =~= decimal(p as nat));
        assert(b.spec_name(q).skip(n) =~= decimal(q as nat));
        lemma_decimal_injective(p as nat, q as nat);
    }
}

/// Each name consists of what the file is for and of the number of the process.
pub proof fn names_tell_process(pid: u32)
    ensures
        TempFile::Init.spec_name(pid) == "vmsh-init-"@ + decimal(pid as nat),
        TempFile::Copy.spec_name(pid) == "vmsh-embed-"@ + decimal(pid as nat),
        TempFile::Kernel.spec_name(pid) == "/tmp/vmsh-kernel-"@ + decimal(pid as nat),
{
}

} // verus!
