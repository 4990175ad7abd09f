//! What the user asked for on the command line.
//!
//! Paths are the bytes that the operating system uses for them.

use vstd::prelude::*;
use vstd::string::*;

use crate::bytes::{find_byte, lemma_first_index_at};

verus! {

/// Number of vCPUs present in the VM unless told otherwise.
pub const DEFAULT_CPUS: u8 = 2;

/// Amount of main memory present in the VM (in MiB) unless told otherwise.
pub const DEFAULT_MEMORY: u32 = 1024;

/// What to say if there is no kernel to boot at all.
pub const NO_KERNEL: &'static str = "no kernel specified and no embedded kernel found";

/// Transparently run a shell (or other binary) in a VM.
#[derive(Debug)]
pub struct Args {
    /// The subcommand, if one was given.
    pub command: Option<Command>,
    /// The arguments given without a subcommand.
    pub args: RunArgs,
}

/// Available subcommands.
#[derive(Debug)]
pub enum Command {
    /// Run a command in a VM (default).
    Run(RunArgs),
    /// Embed a kernel image into a copy of this binary.
    Embed(EmbedArgs),
}

/// Arguments for the default `run` subcommand.
#[derive(Debug)]
pub struct RunArgs {
    /// Path to the kernel vmlinux.
    ///
    /// The image can optionally be gzip, bzip, or zstd compressed. When
    /// omitted, the embedded kernel is used (see `vmsh embed`).
    pub kernel: Option<Vec<u8>>,
    /// Number of vCPUs present in the VM.
    pub cpus: u8,
    /// Amount of main memory present in the VM (in MiB).
    pub memory: u32,
    /// Enable networking via TSI socket impersonation.
    ///
    /// Note that this requires additional kernel patches. Implies `--uds`.
    pub net: bool,
    /// Enable UNIX domain socket impersonation via TSI.
    ///
    /// Note that this requires additional kernel patches.
    pub uds: bool,
    /// Command and arguments to run inside the VM (after --).
    pub command: Vec<String>,
    /// Pass a host environment variable to the guest.
    ///
    /// `KEY` forwards the current value and `KEY=VALUE` sets an explicit
    /// value.
    pub env_vars: Vec<String>,
    /// Forward all host environment variables to the guest.
    ///
    /// Variables that conflict with vmsh internals (`VMSH_*`) or libkrun
    /// (`KRUN_*`) are excluded. Individual `--env` flags take precedence.
    pub all_envs: bool,
    /// Share a host path as read-write inside the guest.
    pub share_rw: Vec<Vec<u8>>,
    /// Skip the user-namespace setup that maps the host uid/gid to root in
    /// the guest.
    pub no_uid_map: bool,
    /// Increase verbosity (can be supplied multiple times).
    pub verbosity: u8,
}

/// Arguments for the `embed` subcommand.
#[derive(Debug)]
pub struct EmbedArgs {
    /// Path to the kernel image to embed.
    pub kernel: Vec<u8>,
    /// Output path for the new binary.
    ///
    /// Defaults to overwriting the current executable in place.
    pub output: Option<Vec<u8>>,
}

impl Args {
    /// The subcommand to carry out: the one that was given, or else `run`
    /// with the arguments given without one.
    pub fn selected(self) -> (r: Command)
        ensures
            r == match self.command {
                Some(command) => command,
                None => Command::Run(self.args),
            },
    {
        match self.command {
            Some(command) => command,
            None => Command::Run(self.args),
        }
    }
}

impl EmbedArgs {
    /// The command line arguments that stand for these.
    pub open spec fn argument_bytes(self) -> Seq<Seq<u8>> {
        let subcommand = seq![0x65u8, 0x6d, 0x62, 0x65, 0x64];
        match self.output {
            Some(path) => seq![subcommand, self.kernel@, seq![0x2du8, 0x6f], path@],
            None => seq![subcommand, self.kernel@],
        }
    }

    /// The command line arguments that stand for these: `embed`, the kernel,
    /// and, if there is an output path, `-o` and that path.
    pub fn arguments(&self) -> (r: Vec<Vec<u8>>)
        ensures
            r@.len() == self.argument_bytes().len(),
            forall|i: int| 0 <= i < r@.len() ==> r@[i]@ == #[trigger] self.argument_bytes()[i],
    {
        let mut out: Vec<Vec<u8>> = Vec::new();
        out.push(vec![0x65u8, 0x6d, 0x62, 0x65, 0x64]);
        out.push(vstd::slice::slice_to_vec(self.kernel.as_slice()));
        if let Some(path) = &self.output {
            out.push(vec![0x2du8, 0x6f]);
            out.push(vstd::slice::slice_to_vec(path.as_slice()));
        }
        proof {
            let expected = self.argument_bytes();
            assert(out@[0]@ =~= expected[0]);
            if self.output is Some {
                assert(out@[2]@ =~= expected[2]);
            }
        }
        out
    }
}

/// Why a path is not acceptable.
#[derive(Clone, Copy, Debug, PartialEq, Eq, Structural)]
pub enum PathError {
    /// The path could not be resolved.
    Unresolved,
    /// The path contains `:` or `;`.
    Reserved,
}

impl PathError {
    /// The text of the error for the path `path`.
    pub open spec fn text(self, path: Seq<char>) -> Seq<char> {
        match self {
            PathError::Unresolved => "failed to resolve path `"@ + path + "`"@,
            PathError::Reserved => "path `"@ + path
                + "` contains reserved delimiter characters (':' or ';')"@,
        }
    }

    /// Describe the error for the path `path`.
    pub fn describe(&self, path: &str) -> (r: String)
        ensures
            r@ == self.text(path@),
    {
        let mut out = String::new();
        match *self {
            PathError::Unresolved => {
                out.append("failed to resolve path `");
                out.append(path);
                out.append("`");
            },
            PathError::Reserved => {
                out.append("path `");
                out.append(path);
                out.append("` contains reserved delimiter characters (':' or ';')");
            },
        }
        assert(out@ =~= self.text(path@));
        out
    }
}

/// A path that contains one of the characters that separate paths and their
/// attributes, `:` and `;`.
pub open spec fn has_delimiter(path: Seq<u8>) -> bool {
    path.contains(0x3a) || path.contains(0x3b)
}

/// Ensure that a canonicalized path does not contain reserved characters.
///
/// `resolved` is what the file system made of the path that the user gave:
/// `None` if it could not be resolved.
pub fn canonicalize_path(resolved: Option<Vec<u8>>) -> (r: Result<Vec<u8>, PathError>)
    ensures
        r == match resolved {
            None => Err::<Vec<u8>, PathError>(PathError::Unresolved),
            Some(path) => if has_delimiter(path@) {
                Err(PathError::Reserved)
            } else {
                Ok(path)
            },
        },
{
    match resolved {
        None => Err(PathError::Unresolved),
        Some(path) => {
            let colon: usize = find_byte(path.as_slice(), 0x3a);
            let semicolon: usize = find_byte(path.as_slice(), 0x3b);
            proof {
                lemma_first_index_at(path@, 0x3a);
                lemma_first_index_at(path@, 0x3b);
            }
            if colon < path.len() || semicolon < path.len() {
                Err(PathError::Reserved)
            } else {
                Ok(path)
            }
        },
    }
}

/// Where the kernel to boot comes from.
#[derive(Clone, Copy, Debug, PartialEq, Eq, Structural)]
pub enum KernelSource {
    /// The file that the user named.
    Explicit,
    /// The `vmsh` binary itself.
    Embedded,
}

/// The kernel that the user named does not exist.
#[derive(Clone, Copy, Debug, PartialEq, Eq, Structural)]
pub struct KernelNotFound;

impl KernelNotFound {
    /// Describe the error for the kernel at `path`.
    pub fn describe(&self, path: &str) -> (r: String)
        ensures
            r@ == "failed to find kernel at `"@ + path@ + "`"@,
    {
        let mut out = String::new();
        out.append("failed to find kernel at `");
        out.append(path);
        out.append("`");
        assert(out@ =~= "failed to find kernel at `"@ + path@ + "`"@);
        out
    }
}

impl RunArgs {
    /// Resolve the kernel: an explicit one takes precedence over the embedded
    /// one, but has to exist.
    ///
    /// `exists` tells whether there is a file at the path given by the user;
    /// it does not matter if there is no such path.
    pub fn resolve_kernel(&self, exists: bool) -> (r: Result<KernelSource, KernelNotFound>)
        ensures
            r == match self.kernel {
                Some(_) => if exists {
                    Ok::<KernelSource, KernelNotFound>(KernelSource::Explicit)
                } else {
                    Err(KernelNotFound)
                },
                None => Ok(KernelSource::Embedded),
            },
    {
        match &self.kernel {
            Some(_) => {
                if exists {
                    Ok(KernelSource::Explicit)
                } else {
                    Err(KernelNotFound)
                }
            },
            None => Ok(KernelSource::Embedded),
        }
    }
}

/// A path is refused just if one of its bytes is `:` or `;`.
pub proof fn delimiters_are_refused(path: Seq<u8>)
    ensures
        has_delimiter(path) <==> exists|i: int|
            0 <= i < path.len() && (#[trigger] path[i] == 0x3a || path[i] == 0x3b),
{
    if has_delimiter(path) {
        let b: u8 = if path.contains(0x3a) {
            0x3a
        } else {
            0x3b
        };
        let i = choose|i: int| 0 <= i < path.len() && path[i] == b;
        assert(path[i] == 0x3a || path[i] == 0x3b);
    }
}

/// The command line for `embed` names the subcommand, the kernel, and the output
/// path behind `-o`, in this order.
pub proof fn embed_arguments_in_order(args: EmbedArgs)
    ensures
        ({
            let all = args.argument_bytes();
            &&& all.len() == if args.output is Some {
                4int
            } else {
                2
            }
            &&& all[0] == seq![0x65u8, 0x6d, 0x62, 0x65, 0x64]
            &&& all[1] == args.kernel@
            &&& args.output matches Some(path) ==> all[2] == seq![0x2du8, 0x6f] && all[3] == path@
        }),
{
}

/// What is said of a path that is refused names the path.
pub proof fn path_errors_tell_why(path: Seq<char>)
    ensures
        PathError::Unresolved.text(path) == "failed to resolve path `"@ + path + "`"@,
        PathError::Reserved.text(path) == "path `"@ + path
            + "` contains reserved delimiter characters (':' or ';')"@,
{
}

} // verus!
