//! Setting up the virtual machine: which kernel to boot, what to run in it,
//! and in which order to tell the hypervisor.

use vstd::prelude::*;
use vstd::string::*;
use vstd::utf8::encode_utf8;

use crate::args::RunArgs;
use crate::environment::{build_env_content, env_map, env_payload, flag_bytes, guest_env, pairs};
use crate::ports::{is_pending, Stream, ENV_PORT, ENV_PORT_VAR};
use crate::bytes::{find_byte, first_index, lemma_first_index_at};
use crate::records::{add_vsock, disable_implicit_vsock, set_vm_config, Note, Receipt};
use crate::sys::stderr_fileno;
use crate::text::{
    check_no_nul, lemma_no_nul_concat, push_signed_decimal, signed_decimal, NulError,
};
use crate::util::{detect_kernel_format, format_of, FormatError, KernelFormat};

verus! {

/// The fixed start of the kernel command line.
pub const CMDLINE_PREFIX: &'static str =
    "earlycon=uart,io,0x3f8 reboot=k panic=5 console=hvc0 rootfstype=virtiofs rw init=";

/// The kernel command line for the init binary at `init_path`. The kernel is
/// kept quiet below verbosity 2.
pub open spec fn cmdline(init_path: Seq<char>, verbosity: u8) -> Seq<char> {
    CMDLINE_PREFIX@ + init_path + " "@ + if verbosity < 2 {
        "quiet"@
    } else {
        ""@
    }
}

/// What the hypervisor has to know about the kernel.
#[derive(Debug)]
pub struct KernelSetup {
    /// Path of the image.
    pub path: Vec<u8>,
    /// Format of the image.
    pub format: KernelFormat,
    /// Command line to boot it with.
    pub cmdline: String,
}

/// Why a kernel cannot be used.
#[derive(Clone, Copy, Debug, PartialEq, Eq, Structural)]
pub enum KernelError {
    /// The format of the image could not be detected.
    Format(FormatError),
    /// The path of the image contains a NUL.
    Nul(NulError),
}

/// Put together what the hypervisor has to know about the kernel at `path`,
/// which starts with `image`.
///
/// A path with a NUL in it cannot be that of an init binary.
pub fn set_kernel(image: &[u8], path: Vec<u8>, init_path: &str, verbosity: u8) -> (r: Result<
    KernelSetup,
    KernelError,
>)
    requires
        !init_path@.contains('\0'),
    ensures
        image@.len() < 4 ==> r == Err::<KernelSetup, KernelError>(
            KernelError::Format(FormatError::Truncated),
        ),
        image@.len() >= 4 && format_of(image@.take(4)) is None ==> r == Err::<
            KernelSetup,
            KernelError,
        >(
            KernelError::Format(
                FormatError::Unrecognized(image@[0], image@[1], image@[2], image@[3]),
            ),
        ),
        image@.len() >= 4 && format_of(image@.take(4)) is Some && path@.contains(0) ==> (
        r matches Err(KernelError::Nul(e)) && e.position == first_index(path@, 0)),
        image@.len() >= 4 && format_of(image@.take(4)) is Some && !path@.contains(0) ==> (
        r matches Ok(setup) && {
            &&& setup.path == path
            &&& Some(setup.format) == format_of(image@.take(4))
            &&& setup.cmdline@ == cmdline(init_path@, verbosity)
            &&& !setup.cmdline@.contains('\0')
        }),
{
    let format = match detect_kernel_format(image) {
        Ok(format) => format,
        Err(e) => {
            return Err(KernelError::Format(e));
        },
    };
    let quiet = if verbosity < 2 {
        "quiet"
    } else {
        ""
    };
    let mut text = String::new();
    text.append(CMDLINE_PREFIX);
    text.append(init_path);
    text.append(" ");
    text.append(quiet);
    proof {
        assert(text@ =~= cmdline(init_path@, verbosity));
        reveal_strlit(
            "earlycon=uart,io,0x3f8 reboot=k panic=5 console=hvc0 rootfstype=virtiofs rw init=",
        );
        reveal_strlit(" ");
        reveal_strlit("quiet");
        reveal_strlit("");
        lemma_no_nul_concat(CMDLINE_PREFIX@, init_path@);
        lemma_no_nul_concat(CMDLINE_PREFIX@ + init_path@, " "@);
        lemma_no_nul_concat(CMDLINE_PREFIX@ + init_path@ + " "@, quiet@);
        lemma_first_index_at(path@, 0);
    }
    let position: usize = find_byte(path.as_slice(), 0);
    if position < path.len() {
        return Err(KernelError::Nul(NulError { position }));
    }
    Ok(KernelSetup { path, format, cmdline: text })
}

/// The texts that `strings` hold.
pub open spec fn texts(strings: Seq<String>) -> Seq<Seq<char>> {
    Seq::new(strings.len(), |i: int| strings[i]@)
}

/// `parts` with a `:` between each two of them.
pub open spec fn joined(parts: Seq<Seq<char>>) -> Seq<char>
    decreases parts.len(),
{
    if parts.len() == 0 {
        Seq::empty()
    } else if parts.len() == 1 {
        parts[0]
    } else {
        joined(parts.drop_last()) + ":"@ + parts.last()
    }
}

/// Which of the standard streams are not terminals.
#[derive(Clone, Copy, Debug, PartialEq, Eq, Structural)]
pub struct Redirected {
    /// Standard input is redirected.
    pub stdin: bool,
    /// Standard output is redirected.
    pub stdout: bool,
    /// Standard error is redirected.
    pub stderr: bool,
}

/// `text` alone, if `condition` holds, and nothing otherwise.
pub open spec fn only_if(condition: bool, text: Seq<char>) -> Seq<Seq<char>> {
    if condition {
        seq![text]
    } else {
        Seq::empty()
    }
}

/// The entry that tells the guest which files to remove.
pub open spec fn unlink_entry(unlink_paths: Seq<Seq<char>>) -> Seq<char> {
    "VMSH_UNLINK="@ + joined(unlink_paths)
}

/// The defaults for the host name and the home directory. Where the latter is
/// unknown, it is `/root`.
pub open spec fn default_entries(hostname: Seq<char>, home: Option<Seq<char>>) -> Seq<Seq<char>> {
    seq![
        "HOSTNAME="@ + hostname,
        match home {
            Some(home) => "HOME="@ + home,
            None => "HOME=/root"@,
        },
    ]
}

/// The environment that the init process of the guest is started with:
/// defaults, the files to remove, whether more variables can be read from a
/// port, and which streams are redirected.
pub open spec fn init_env(
    hostname: Seq<char>,
    home: Option<Seq<char>>,
    unlink_paths: Seq<Seq<char>>,
    has_env_port: bool,
    redirected: Redirected,
) -> Seq<Seq<char>> {
    let unlink = only_if(unlink_paths.len() > 0, unlink_entry(unlink_paths));
    let port = only_if(has_env_port, "VMSH_ENV_PORT=1"@);
    let stdin = only_if(redirected.stdin, "VMSH_STDIN=1"@);
    let stdout = only_if(redirected.stdout, "VMSH_STDOUT=1"@);
    let stderr = only_if(redirected.stderr, "VMSH_STDERR=1"@);
    default_entries(hostname, home) + unlink + port + stdin + stdout + stderr
}

/// The position of the first NUL byte in the first of `parts` that has one.
pub open spec fn first_nul(parts: Seq<Seq<char>>) -> Option<nat>
    decreases parts.len(),
{
    if parts.len() == 0 {
        None
    } else if parts[0].contains('\0') {
        Some(first_index(encode_utf8(parts[0]), 0))
    } else {
        first_nul(parts.drop_first())
    }
}

/// A program to run, with its arguments.
#[derive(Debug)]
pub struct Program {
    /// The program.
    pub path: String,
    /// The arguments that follow its name.
    pub args: Vec<String>,
}

/// What the hypervisor has to know about the process to run.
#[derive(Debug)]
pub struct ExecSetup {
    /// The environment of the init process.
    pub env: Vec<String>,
    /// The program to run, unless the init process is to start a shell.
    pub program: Option<Program>,
}

/// The program that a command line stands for: its first word, and the rest
/// as arguments; none if it is empty.
pub open spec fn is_program(program: Option<Program>, command: Seq<Seq<char>>) -> bool {
    match program {
        Some(program) => {
            &&& command.len() > 0
            &&& program.path@ == command[0]
            &&& texts(program.args@) == command.drop_first()
        },
        None => command.len() == 0,
    }
}

/// Collect the temporary files for the init process of the guest to remove:
/// the init binary and, if there is one, the extracted kernel.
pub fn unlink_paths(init: String, kernel: Option<String>) -> (r: Vec<String>)
    ensures
        r@ == match kernel {
            Some(kernel) => seq![init, kernel],
            None => seq![init],
        },
{
    let mut out: Vec<String> = Vec::new();
    out.push(init);
    if let Some(kernel) = kernel {
        out.push(kernel);
    }
    out
}

/// No entry contains a NUL, so that each can be passed on as a C string.
pub open spec fn free_of_nul(entries: Seq<String>) -> bool {
    forall|i: int| 0 <= i < entries.len() ==> !(#[trigger] entries[i])@.contains('\0')
}

/// Append an entry to `env`.
fn push_entry(env: &mut Vec<String>, entry: String)
    requires
        free_of_nul(old(env)@),
        !entry@.contains('\0'),
    ensures
        free_of_nul(final(env)@),
        texts(final(env)@) == texts(old(env)@) + seq![entry@],
{
    env.push(entry);
    assert(texts(env@) =~= texts(old(env)@) + seq![entry@]);
}

/// Append an entry to `env`, if `condition` holds.
fn push_if(env: &mut Vec<String>, condition: bool, entry: &str)
    requires
        free_of_nul(old(env)@),
        !entry@.contains('\0'),
    ensures
        free_of_nul(final(env)@),
        texts(final(env)@) == texts(old(env)@) + only_if(condition, entry@),
{
    if condition {
        push_entry(env, entry.to_owned());
    } else {
        assert(texts(env@) =~= texts(old(env)@) + only_if(condition, entry@));
    }
}

/// Concatenate two texts.
fn concatenation(a: &str, b: &str) -> (r: String)
    ensures
        r@ == a@ + b@,
{
    let mut out = a.to_owned();
    out.append(b);
    out
}

/// Join `parts` with a `:` between each two of them.
fn join(parts: &[String]) -> (r: String)
    ensures
        r@ == joined(texts(parts@)),
{
    let ghost all = texts(parts@);
    let mut out = String::new();
    let mut i: usize = 0;
    while i < parts.len()
        invariant
            i <= parts@.len(),
            all == texts(parts@),
            out@ == joined(all.take(i as int)),
        decreases parts@.len() - i,
    {
        if i > 0 {
            out.append(":");
        }
        out.append(parts[i].as_str());
        proof {
            let next = all.take(i + 1);
            assert(next.drop_last() =~= all.take(i as int));
            assert(next.last() == parts@[i as int]@);
            if i == 0 {
                assert(out@ =~= next[0]);
            }
        }
        i = i + 1;
    }
    assert(all.take(i as int) =~= all);
    out
}

/// Check that all parts of a command line can be passed on as C strings.
fn check_command(command: &Vec<String>) -> (r: Result<(), NulError>)
    ensures
        match first_nul(texts(command@)) {
            Some(position) => r matches Err(e) && e.position == position,
            None => r is Ok,
        },
{
    let ghost all = texts(command@);
    let mut i: usize = 0;
    assert(all.skip(0) =~= all);
    while i < command.len()
        invariant
            i <= command@.len(),
            all == texts(command@),
            first_nul(all) == first_nul(all.skip(i as int)),
        decreases command@.len() - i,
    {
        assert(all.skip(i as int)[0] == command@[i as int]@);
        assert(all.skip(i as int).drop_first() =~= all.skip(i + 1));
        match check_no_nul(command[i].as_str()) {
            Ok(()) => {},
            Err(e) => {
                return Err(e);
            },
        }
        i = i + 1;
    }
    Ok(())
}

/// The text of an optional string.
pub open spec fn optional_text(text: Option<&str>) -> Option<Seq<char>> {
    match text {
        Some(text) => Some(text@),
        None => None,
    }
}

/// Put the defaults for the host name and the home directory together.
fn default_env(hostname: &str, home: Option<&str>) -> (r: Vec<String>)
    requires
        !hostname@.contains('\0'),
        home matches Some(home) ==> !home@.contains('\0'),
    ensures
        free_of_nul(r@),
        texts(r@) == default_entries(hostname@, optional_text(home)),
{
    let mut env: Vec<String> = Vec::new();
    proof {
        reveal_strlit("HOSTNAME=");
        lemma_no_nul_concat("HOSTNAME="@, hostname@);
    }
    push_entry(&mut env, concatenation("HOSTNAME=", hostname));
    match home {
        Some(home) => {
            proof {
                reveal_strlit("HOME=");
                lemma_no_nul_concat("HOME="@, home@);
            }
            push_entry(&mut env, concatenation("HOME=", home));
        },
        None => {
            proof {
                reveal_strlit("HOME=/root");
            }
            push_entry(&mut env, "HOME=/root".to_owned());
        },
    }
    assert(texts(env@) =~= default_entries(hostname@, optional_text(home)));
    env
}

/// Append what the init process has to know about its surroundings.
fn push_hints(env: &mut Vec<String>, has_env_port: bool, redirected: Redirected)
    requires
        free_of_nul(old(env)@),
    ensures
        free_of_nul(final(env)@),
        texts(final(env)@) == texts(old(env)@) + only_if(has_env_port, "VMSH_ENV_PORT=1"@)
            + only_if(redirected.stdin, "VMSH_STDIN=1"@) + only_if(
            redirected.stdout,
            "VMSH_STDOUT=1"@,
        ) + only_if(redirected.stderr, "VMSH_STDERR=1"@),
{
    proof {
        reveal_strlit("VMSH_ENV_PORT=1");
        reveal_strlit("VMSH_STDIN=1");
        reveal_strlit("VMSH_STDOUT=1");
        reveal_strlit("VMSH_STDERR=1");
    }
    push_if(env, has_env_port, "VMSH_ENV_PORT=1");
    push_if(env, redirected.stdin, "VMSH_STDIN=1");
    push_if(env, redirected.stdout, "VMSH_STDOUT=1");
    push_if(env, redirected.stderr, "VMSH_STDERR=1");
}

/// The parts of an [`ExecSetup`] that may turn out to contain a NUL, in the
/// order in which they are looked at.
pub open spec fn doubtful_parts(
    unlink_paths: Seq<Seq<char>>,
    command: Seq<Seq<char>>,
) -> Seq<Seq<char>> {
    only_if(unlink_paths.len() > 0, unlink_entry(unlink_paths)) + command
}

/// Put together what the hypervisor has to know about the process to run.
///
/// The environment consists of defaults, which are overwritten by any user
/// provided values, and of what the init process of the guest has to know.
/// Neither the host name nor the path of the home directory can contain a
/// NUL.
pub fn set_exec(
    hostname: &str,
    home: Option<&str>,
    redirected: Redirected,
    command: Vec<String>,
    has_env_port: bool,
    unlink_paths: &[String],
) -> (r: Result<ExecSetup, NulError>)
    requires
        !hostname@.contains('\0'),
        home matches Some(home) ==> !home@.contains('\0'),
    ensures
        match first_nul(doubtful_parts(texts(unlink_paths@), texts(command@))) {
            Some(position) => r matches Err(e) && e.position == position,
            None => r matches Ok(setup) && {
                &&& texts(setup.env@) == init_env(
                    hostname@,
                    optional_text(home),
                    texts(unlink_paths@),
                    has_env_port,
                    redirected,
                )
                &&& free_of_nul(setup.env@)
                &&& is_program(setup.program, texts(command@))
            },
        },
{
    let ghost parts = doubtful_parts(texts(unlink_paths@), texts(command@));
    let mut env = default_env(hostname, home);
    if unlink_paths.len() > 0 {
        let entry = concatenation("VMSH_UNLINK=", join(unlink_paths).as_str());
        assert(parts[0] == entry@);
        match check_no_nul(entry.as_str()) {
            Ok(()) => {},
            Err(e) => {
                return Err(e);
            },
        }
        assert(parts.drop_first() =~= texts(command@));
        push_entry(&mut env, entry);
    } else {
        assert(parts =~= texts(command@));
        assert(texts(env@) =~= texts(env@) + Seq::<Seq<char>>::empty());
    }
    push_hints(&mut env, has_env_port, redirected);
    match check_command(&command) {
        Ok(()) => {},
        Err(e) => {
            return Err(e);
        },
    }
    if command.len() == 0 {
        return Ok(ExecSetup { env, program: None });
    }
    let ghost all = texts(command@);
    let mut rest = command;
    let path = rest.remove(0);
    assert(texts(rest@) =~= all.drop_first());
    Ok(ExecSetup { env, program: Some(Program { path, args: rest }) })
}

/// Whether `entries` set the variable `name`.
pub open spec fn sets_variable(entries: Seq<Seq<char>>, name: Seq<char>) -> bool {
    exists|i: int| 0 <= i < entries.len() && (name + "="@).is_prefix_of(#[trigger] entries[i])
}

/// Entries set a variable if the first or the second part of them does.
proof fn lemma_sets_concat(a: Seq<Seq<char>>, b: Seq<Seq<char>>, name: Seq<char>)
    ensures
        sets_variable(a + b, name) <==> sets_variable(a, name) || sets_variable(b, name),
{
    let start = name + "="@;
    if sets_variable(a + b, name) {
        let i = choose|i: int|
            0 <= i < (a + b).len() && start.is_prefix_of(#[trigger] (a + b)[i]);
        if i < a.len() {
            assert(start.is_prefix_of(a[i]));
        } else {
            assert(start.is_prefix_of(b[i - a.len()]));
        }
    }
    if sets_variable(a, name) {
        let i = choose|i: int| 0 <= i < a.len() && start.is_prefix_of(#[trigger] a[i]);
        assert(start.is_prefix_of((a + b)[i]));
    }
    if sets_variable(b, name) {
        let i = choose|i: int| 0 <= i < b.len() && start.is_prefix_of(#[trigger] b[i]);
        assert(start.is_prefix_of((a + b)[i + a.len()]));
    }
}

/// A single entry sets a variable just if it starts with its name.
proof fn lemma_sets_only(condition: bool, entry: Seq<char>, name: Seq<char>)
    ensures
        sets_variable(only_if(condition, entry), name) <==> condition && (name
            + "="@).is_prefix_of(entry),
{
    if condition {
        assert(only_if(condition, entry)[0] == entry);
    }
}

/// Which of the entries of [`init_env`] set a variable.
proof fn lemma_init_env_sets(
    hostname: Seq<char>,
    home: Option<Seq<char>>,
    unlink_paths: Seq<Seq<char>>,
    has_env_port: bool,
    redirected: Redirected,
    name: Seq<char>,
)
    ensures
        sets_variable(
            init_env(hostname, home, unlink_paths, has_env_port, redirected),
            name,
        ) <==> {
            let start = name + "="@;
            ||| sets_variable(default_entries(hostname, home), name)
            ||| unlink_paths.len() > 0 && start.is_prefix_of(unlink_entry(unlink_paths))
            ||| has_env_port && start.is_prefix_of("VMSH_ENV_PORT=1"@)
            ||| redirected.stdin && start.is_prefix_of("VMSH_STDIN=1"@)
            ||| redirected.stdout && start.is_prefix_of("VMSH_STDOUT=1"@)
            ||| redirected.stderr && start.is_prefix_of("VMSH_STDERR=1"@)
        },
{
    let a = default_entries(hostname, home);
    let b = only_if(unlink_paths.len() > 0, unlink_entry(unlink_paths));
    let c = only_if(has_env_port, "VMSH_ENV_PORT=1"@);
    let d = only_if(redirected.stdin, "VMSH_STDIN=1"@);
    let e = only_if(redirected.stdout, "VMSH_STDOUT=1"@);
    let f = only_if(redirected.stderr, "VMSH_STDERR=1"@);
    lemma_sets_concat(a + b + c + d + e, f, name);
    lemma_sets_concat(a + b + c + d, e, name);
    lemma_sets_concat(a + b + c, d, name);
    lemma_sets_concat(a + b, c, name);
    lemma_sets_concat(a, b, name);
    lemma_sets_only(unlink_paths.len() > 0, unlink_entry(unlink_paths), name);
    lemma_sets_only(has_env_port, "VMSH_ENV_PORT=1"@, name);
    lemma_sets_only(redirected.stdin, "VMSH_STDIN=1"@, name);
    lemma_sets_only(redirected.stdout, "VMSH_STDOUT=1"@, name);
    lemma_sets_only(redirected.stderr, "VMSH_STDERR=1"@, name);
}

/// An entry that sets a variable agrees with its name in every character.
proof fn lemma_starts_alike(name: Seq<char>, entry: Seq<char>, i: int)
    requires
        (name + "="@).is_prefix_of(entry),
        0 <= i < name.len(),
    ensures
        i < entry.len(),
        entry[i] == name[i],
{
    assert((name + "="@)[i] == entry.subrange(0, (name + "="@).len() as int)[i]);
}

/// None of the defaults sets a variable whose name starts with `V`.
proof fn lemma_defaults_set_no_hint(
    hostname: Seq<char>,
    home: Option<Seq<char>>,
    name: Seq<char>,
)
    requires
        name.len() > 0,
        name[0] == 'V',
    ensures
        !sets_variable(default_entries(hostname, home), name),
{
    reveal_strlit("HOSTNAME=");
    reveal_strlit("HOME=");
    reveal_strlit("HOME=/root");
    let env = default_entries(hostname, home);
    if sets_variable(env, name) {
        let i = choose|i: int|
            0 <= i < env.len() && (name + "="@).is_prefix_of(#[trigger] env[i]);
        lemma_starts_alike(name, env[i], 0);
        assert(env[0][0] == 'H');
        assert(env[1][0] == 'H');
    }
}

/// The variables that tell the init process of the guest about its
/// surroundings are set just if they apply. Their presence is what the init
/// process goes by.
pub proof fn init_env_tells_guest(
    hostname: Seq<char>,
    home: Option<Seq<char>>,
    unlink_paths: Seq<Seq<char>>,
    has_env_port: bool,
    redirected: Redirected,
)
    ensures
        ({
            let env = init_env(hostname, home, unlink_paths, has_env_port, redirected);
            &&& sets_variable(env, "VMSH_UNLINK"@) <==> unlink_paths.len() > 0
            &&& sets_variable(env, ENV_PORT_VAR@) <==> has_env_port
            &&& forall|stream: Stream| #[trigger]
                sets_variable(env, stream.spec_variable()) <==> is_pending(redirected, stream)
        }),
{
    reveal_strlit("VMSH_UNLINK");
    reveal_strlit("VMSH_ENV_PORT");
    reveal_strlit("VMSH_STDIN");
    reveal_strlit("VMSH_STDOUT");
    reveal_strlit("VMSH_STDERR");
    reveal_strlit("VMSH_UNLINK=");
    reveal_strlit("VMSH_ENV_PORT=1");
    reveal_strlit("VMSH_STDIN=1");
    reveal_strlit("VMSH_STDOUT=1");
    reveal_strlit("VMSH_STDERR=1");
    reveal_strlit("=");
    let names = seq![
        "VMSH_UNLINK"@,
        "VMSH_ENV_PORT"@,
        "VMSH_STDIN"@,
        "VMSH_STDOUT"@,
        "VMSH_STDERR"@,
    ];
    let entries = seq![
        unlink_entry(unlink_paths),
        "VMSH_ENV_PORT=1"@,
        "VMSH_STDIN=1"@,
        "VMSH_STDOUT=1"@,
        "VMSH_STDERR=1"@,
    ];
    assert(entries[0][5] == 'U');
    assert forall|i: int, j: int| 0 <= i < 5 && 0 <= j < 5 implies ((names[i] + "="@).is_prefix_of(
        #[trigger] entries[j],
    ) <==> #[trigger] names[i] == names[j]) by {
        let start = names[i] + "="@;
        if i == j {
            assert(start =~= entries[j].subrange(0, start.len() as int));
        } else {
            assert(names[i][5] != names[j][5] || names[i][8] != names[j][8]);
            assert(entries[j][5] == names[j][5]);
            if start.is_prefix_of(entries[j]) {
                lemma_starts_alike(names[i], entries[j], 5);
                lemma_starts_alike(names[i], entries[j], 8);
                assert(j > 0 ==> entries[j][8] == names[j][8]);
            }
        }
    }
    assert forall|i: int| 0 <= i < 5 implies sets_variable(
        init_env(hostname, home, unlink_paths, has_env_port, redirected),
        #[trigger] names[i],
    ) == seq![
        unlink_paths.len() > 0,
        has_env_port,
        redirected.stdin,
        redirected.stdout,
        redirected.stderr,
    ][i] by {
        lemma_init_env_sets(hostname, home, unlink_paths, has_env_port, redirected, names[i]);
        lemma_defaults_set_no_hint(hostname, home, names[i]);
        assert(entries[0] == unlink_entry(unlink_paths));
        assert(entries[1] == "VMSH_ENV_PORT=1"@ && entries[2] == "VMSH_STDIN=1"@);
        assert(entries[3] == "VMSH_STDOUT=1"@ && entries[4] == "VMSH_STDERR=1"@);
    }
    assert(names[0] == "VMSH_UNLINK"@ && names[1] == "VMSH_ENV_PORT"@);
    assert(names[2] == "VMSH_STDIN"@ && names[3] == "VMSH_STDOUT"@ && names[4] == "VMSH_STDERR"@);
}

/// Hijack `AF_INET` and `AF_INET6` sockets of the guest.
pub const KRUN_TSI_HIJACK_INET: u32 = 1;

/// Hijack `AF_UNIX` sockets of the guest.
pub const KRUN_TSI_HIJACK_UNIX: u32 = 2;

/// The features of TSI (Transparent Socket Impersonation) that `--net` and
/// `--uds` enable.
pub open spec fn spec_tsi_features(net: bool, uds: bool) -> int {
    (if net {
        KRUN_TSI_HIJACK_INET as int
    } else {
        0
    }) + (if net || uds {
        KRUN_TSI_HIJACK_UNIX as int
    } else {
        0
    })
}

/// Determine the features of TSI (Transparent Socket Impersonation) to enable
/// for networking. TSI intercepts socket calls in the guest kernel and proxies
/// them through the host.
pub fn tsi_features(net: bool, uds: bool) -> (r: u32)
    ensures
        r == spec_tsi_features(net, uds),
{
    let mut features: u32 = 0;
    if net {
        features = features + KRUN_TSI_HIJACK_INET;
    }
    if net || uds {
        features = features + KRUN_TSI_HIJACK_UNIX;
    }
    features
}

/// `--net` implies `--uds`; without either no socket is impersonated.
pub proof fn net_implies_uds(uds: bool)
    ensures
        spec_tsi_features(true, uds) == spec_tsi_features(true, true),
        spec_tsi_features(false, false) == 0,
{
}

/// The path of the host that becomes the root filesystem of the guest.
pub const ROOT: &'static str = "/";

/// What the sequence of calls that sets up a VM depends on.
#[derive(Debug, PartialEq, Eq)]
pub struct VmConfig {
    /// Number of vCPUs.
    pub cpus: u8,
    /// Amount of main memory (in MiB).
    pub memory: u32,
    /// Enable networking.
    pub net: bool,
    /// Enable UNIX domain sockets.
    pub uds: bool,
    /// Verbosity.
    pub verbosity: u8,
    /// The payload with the environment variables to pass to the guest.
    pub env_content: Vec<u8>,
    /// There is a program to run other than a shell.
    pub has_program: bool,
}

impl VmConfig {
    /// The guest has a port to read environment variables from just if there
    /// are any.
    pub open spec fn spec_has_env_port(self) -> bool {
        self.env_content@.len() > 0
    }

    /// Whether the guest has a port to read environment variables from.
    pub fn has_env_port(&self) -> (r: bool)
        ensures
            r == self.spec_has_env_port(),
    {
        self.env_content.len() > 0
    }

    /// The configuration for `args` and the host's environment.
    pub fn new(args: &RunArgs, host_env: Vec<(Vec<u8>, Vec<u8>)>) -> (r: VmConfig)
        ensures
            r.cpus == args.cpus,
            r.memory == args.memory,
            r.net == args.net,
            r.uds == args.uds,
            r.verbosity == args.verbosity,
            r.env_content@ == env_payload(
                guest_env(flag_bytes(args.env_vars@), args.all_envs, env_map(pairs(host_env@))),
            ),
            r.has_program == (args.command@.len() > 0),
    {
        VmConfig {
            cpus: args.cpus,
            memory: args.memory,
            net: args.net,
            uds: args.uds,
            verbosity: args.verbosity,
            env_content: build_env_content(args.env_vars.as_slice(), args.all_envs, host_env),
            has_program: args.command.len() > 0,
        }
    }
}

/// The steps of setting up a VM and running it.
#[derive(Clone, Copy, Debug, PartialEq, Eq, Structural)]
pub enum VmStep {
    /// Set the log level.
    InitLog,
    /// Create a context.
    CreateContext,
    /// Set the number of vCPUs and the amount of memory.
    SetVmConfig,
    /// Add a serial console.
    AddSerialConsole,
    /// Disable the vsock device that would be there by default.
    DisableImplicitVsock,
    /// Add a vsock device.
    AddVsock,
    /// Set the kernel.
    SetKernel,
    /// Set the root filesystem.
    SetRoot,
    /// Create an anonymous file for the environment variables.
    CreateEnvFile,
    /// Add a console for the environment variables.
    AddEnvConsole,
    /// Add the port for the environment variables to that console.
    AddEnvPort,
    /// Set the program to run, and the environment.
    SetExec,
    /// Set the environment.
    SetEnv,
    /// Run the VM.
    StartEnter,
    /// Nothing is left to do.
    Done,
}

/// A call to make, with its arguments. `ctx` is the context to make it for.
#[derive(Clone, Copy, Debug, PartialEq, Eq)]
pub enum VmAction<'a> {
    /// Log to the file descriptor `target`.
    InitLog { target: i32, level: u32, style: u32, options: u32 },
    /// Create a context; the status is its number.
    CreateContext,
    /// Set the number of vCPUs and the amount of memory (in MiB).
    SetVmConfig { ctx: u32, cpus: u8, memory: u32 },
    /// Add a serial console for the file descriptors given, where -1 stands
    /// for none.
    AddSerialConsole { ctx: u32, input: i32, output: i32 },
    /// Disable the vsock device that would be there by default.
    DisableImplicitVsock { ctx: u32 },
    /// Add a vsock device.
    AddVsock { ctx: u32, features: u32 },
    /// Set the kernel.
    SetKernel { ctx: u32 },
    /// Set the root filesystem to the directory `path` of the host.
    SetRoot { ctx: u32, path: &'static str },
    /// Create an anonymous file that holds `content`, to be read from its start;
    /// the status is its file descriptor.
    CreateEnvFile { content: &'a Vec<u8> },
    /// Add a console that can have several ports; the status is its number.
    AddEnvConsole { ctx: u32 },
    /// Add the port `name` to console `console`, for the file descriptors given,
    /// where -1 stands for none.
    AddEnvPort { ctx: u32, console: u32, name: &'static str, input: i32, output: i32 },
    /// Set the program to run, and the environment.
    SetExec { ctx: u32 },
    /// Set the environment.
    SetEnv { ctx: u32 },
    /// Run the VM.
    StartEnter { ctx: u32 },
    /// Nothing is left to do.
    Done,
}

/// What a call notes down for its context, if that is all it does.
pub open spec fn note_of(action: VmAction) -> Option<Note> {
    match action {
        VmAction::SetVmConfig { ctx, cpus, memory } => Some(Note::VmConfig { ctx, cpus, memory }),
        VmAction::DisableImplicitVsock { ctx } => Some(Note::NoImplicitVsock { ctx }),
        VmAction::AddVsock { ctx, features } => Some(Note::Vsock { ctx, features }),
        _ => None,
    }
}

/// The statuses that noting something down can have: success, `-ENOENT` for a
/// context that does not exist, `-EINVAL` for what is never acceptable, and
/// `-EEXIST` for a second vsock device.
pub open spec fn is_status_for(note: Note, status: i32) -> bool {
    match note {
        Note::VmConfig { ctx: _, cpus, memory } => if cpus == 0 || memory == 0 {
            status == -22 || status == -2
        } else {
            status == 0 || status == -2
        },
        Note::NoImplicitVsock { ctx: _ } => status == 0 || status == -2,
        Note::Vsock { ctx: _, features } => if features > 3 {
            status == -22
        } else {
            status == 0 || status == -2 || status == -17
        },
    }
}

/// A call failed.
#[derive(Clone, Copy, Debug, PartialEq, Eq, Structural)]
pub struct VmFailure {
    /// The step that failed.
    pub step: VmStep,
    /// The status of the call.
    pub status: i32,
}

impl VmFailure {
    /// What failed, in words.
    pub open spec fn reason(self) -> Seq<char> {
        match self.step {
            VmStep::InitLog => "failed to set log level"@,
            VmStep::SetVmConfig => "failed to set VM config"@,
            VmStep::AddSerialConsole => "failed to add serial console"@,
            VmStep::DisableImplicitVsock => "failed to disable implicit vsock"@,
            VmStep::AddVsock => "failed to add vsock device"@,
            VmStep::SetKernel => "failed to set kernel"@,
            VmStep::SetRoot => "failed to set root filesystem"@,
            VmStep::CreateEnvFile => "failed to create memfd for env vars"@,
            VmStep::AddEnvConsole => "failed to add virtio console for env port"@,
            VmStep::AddEnvPort => "failed to add env console port"@,
            VmStep::SetExec => "failed to set exec command"@,
            VmStep::SetEnv => "failed to set environment"@,
            VmStep::StartEnter => "failed to start VM"@,
            VmStep::CreateContext | VmStep::Done => ""@,
        }
    }

    /// The text of the failure: what failed and, for the kernel and for the
    /// VM as a whole, the status.
    pub open spec fn text(self) -> Seq<char> {
        if self.step == VmStep::SetKernel || self.step == VmStep::StartEnter {
            self.reason() + " (code "@ + signed_decimal(self.status as int) + ")"@
        } else {
            self.reason()
        }
    }

    /// Describe the failure.
    pub fn describe(&self) -> (r: String)
        ensures
            r@ == self.text(),
    {
        let reason = match self.step {
            VmStep::InitLog => "failed to set log level",
            VmStep::SetVmConfig => "failed to set VM config",
            VmStep::AddSerialConsole => "failed to add serial console",
            VmStep::DisableImplicitVsock => "failed to disable implicit vsock",
            VmStep::AddVsock => "failed to add vsock device",
            VmStep::SetKernel => "failed to set kernel",
            VmStep::SetRoot => "failed to set root filesystem",
            VmStep::CreateEnvFile => "failed to create memfd for env vars",
            VmStep::AddEnvConsole => "failed to add virtio console for env port",
            VmStep::AddEnvPort => "failed to add env console port",
            VmStep::SetExec => "failed to set exec command",
            VmStep::SetEnv => "failed to set environment",
            VmStep::StartEnter => "failed to start VM",
            VmStep::CreateContext | VmStep::Done => "",
        };
        let mut out = reason.to_owned();
        if self.step == VmStep::SetKernel || self.step == VmStep::StartEnter {
            out.append(" (code ");
            push_signed_decimal(&mut out, self.status);
            out.append(")");
        }
        out
    }
}

/// The progress made in setting up a VM.
#[derive(Debug, PartialEq, Eq)]
pub struct VmRun {
    /// What to set up.
    pub config: VmConfig,
    /// The number of the context, once it was created.
    pub ctx: u32,
    /// The descriptor of the file with the environment variables, once it was
    /// created.
    pub env_file: i32,
    /// The number of the console for the environment variables, once it was
    /// added.
    pub console: u32,
    /// The step that comes next.
    pub step: VmStep,
}

/// The step that follows `step`.
pub open spec fn successor(config: VmConfig, step: VmStep) -> VmStep {
    match step {
        VmStep::InitLog => VmStep::CreateContext,
        VmStep::CreateContext => VmStep::SetVmConfig,
        VmStep::SetVmConfig => VmStep::AddSerialConsole,
        VmStep::AddSerialConsole => VmStep::DisableImplicitVsock,
        VmStep::DisableImplicitVsock => VmStep::AddVsock,
        VmStep::AddVsock => VmStep::SetKernel,
        VmStep::SetKernel => VmStep::SetRoot,
        VmStep::SetRoot => if config.spec_has_env_port() {
            VmStep::CreateEnvFile
        } else if config.has_program {
            VmStep::SetExec
        } else {
            VmStep::SetEnv
        },
        VmStep::CreateEnvFile => VmStep::AddEnvConsole,
        VmStep::AddEnvConsole => VmStep::AddEnvPort,
        VmStep::AddEnvPort => if config.has_program {
            VmStep::SetExec
        } else {
            VmStep::SetEnv
        },
        VmStep::SetExec => VmStep::StartEnter,
        VmStep::SetEnv => VmStep::StartEnter,
        VmStep::StartEnter => VmStep::Done,
        VmStep::Done => VmStep::Done,
    }
}

impl VmRun {
    /// The state before anything was done.
    pub open spec fn initial(config: VmConfig) -> VmRun {
        VmRun {
            config,
            ctx: 0,
            env_file: -1i32,
            console: 0,
            step: if config.verbosity > 0 {
                VmStep::InitLog
            } else {
                VmStep::CreateContext
            },
        }
    }

    /// The call that comes next.
    pub open spec fn spec_action(&self) -> VmAction<'_> {
        let ctx = self.ctx;
        match self.step {
            VmStep::InitLog => VmAction::InitLog {
                target: 2,
                level: self.config.verbosity as u32,
                style: 2,
                options: 0,
            },
            VmStep::CreateContext => VmAction::CreateContext,
            VmStep::SetVmConfig => VmAction::SetVmConfig {
                ctx,
                cpus: self.config.cpus,
                memory: self.config.memory,
            },
            VmStep::AddSerialConsole => VmAction::AddSerialConsole {
                ctx,
                input: -1i32,
                output: if self.config.verbosity > 0 {
                    2
                } else {
                    -1i32
                },
            },
            VmStep::DisableImplicitVsock => VmAction::DisableImplicitVsock { ctx },
            VmStep::AddVsock => VmAction::AddVsock {
                ctx,
                features: spec_tsi_features(self.config.net, self.config.uds) as u32,
            },
            VmStep::SetKernel => VmAction::SetKernel { ctx },
            VmStep::SetRoot => VmAction::SetRoot { ctx, path: ROOT },
            VmStep::CreateEnvFile => VmAction::CreateEnvFile { content: &self.config.env_content },
            VmStep::AddEnvConsole => VmAction::AddEnvConsole { ctx },
            VmStep::AddEnvPort => VmAction::AddEnvPort {
                ctx,
                console: self.console,
                name: ENV_PORT,
                input: self.env_file,
                output: -1i32,
            },
            VmStep::SetExec => VmAction::SetExec { ctx },
            VmStep::SetEnv => VmAction::SetEnv { ctx },
            VmStep::StartEnter => VmAction::StartEnter { ctx },
            VmStep::Done => VmAction::Done,
        }
    }

    /// The state after the call for the next step returned `status`. A
    /// negative status is a failure, except for the creation of the context.
    pub open spec fn spec_advance(self, status: i32) -> Result<VmRun, VmFailure> {
        if status < 0 && self.step != VmStep::CreateContext {
            Err(VmFailure { step: self.step, status })
        } else {
            Ok(
                VmRun {
                    config: self.config,
                    ctx: if self.step == VmStep::CreateContext {
                        status as u32
                    } else {
                        self.ctx
                    },
                    env_file: if self.step == VmStep::CreateEnvFile {
                        status
                    } else {
                        self.env_file
                    },
                    console: if self.step == VmStep::AddEnvConsole {
                        status as u32
                    } else {
                        self.console
                    },
                    step: successor(self.config, self.step),
                },
            )
        }
    }

    /// Start to set up a VM. Logging is set up only if it was asked for.
    pub fn start(config: VmConfig) -> (r: VmRun)
        ensures
            r == VmRun::initial(config),
    {
        let step = if config.verbosity > 0 {
            VmStep::InitLog
        } else {
            VmStep::CreateContext
        };
        VmRun { config, ctx: 0, env_file: -1, console: 0, step }
    }

    /// Determine the call to make next.
    pub fn action(&self) -> (r: VmAction<'_>)
        ensures
            r == self.spec_action(),
    {
        let ctx = self.ctx;
        match self.step {
            VmStep::InitLog => VmAction::InitLog {
                target: stderr_fileno(),
                level: self.config.verbosity as u32,
                // `KRUN_LOG_STYLE_NEVER`
                style: 2,
                // Let the environment override the level.
                options: 0,
            },
            VmStep::CreateContext => VmAction::CreateContext,
            VmStep::SetVmConfig => VmAction::SetVmConfig {
                ctx,
                cpus: self.config.cpus,
                memory: self.config.memory,
            },
            VmStep::AddSerialConsole => VmAction::AddSerialConsole {
                ctx,
                input: -1,
                output: if self.config.verbosity > 0 {
                    stderr_fileno()
                } else {
                    -1
                },
            },
            VmStep::DisableImplicitVsock => VmAction::DisableImplicitVsock { ctx },
            VmStep::AddVsock => VmAction::AddVsock {
                ctx,
                features: tsi_features(self.config.net, self.config.uds),
            },
            VmStep::SetKernel => VmAction::SetKernel { ctx },
            VmStep::SetRoot => VmAction::SetRoot { ctx, path: ROOT },
            VmStep::CreateEnvFile => VmAction::CreateEnvFile { content: &self.config.env_content },
            VmStep::AddEnvConsole => VmAction::AddEnvConsole { ctx },
            VmStep::AddEnvPort => VmAction::AddEnvPort {
                ctx,
                console: self.console,
                name: ENV_PORT,
                input: self.env_file,
                output: -1i32,
            },
            VmStep::SetExec => VmAction::SetExec { ctx },
            VmStep::SetEnv => VmAction::SetEnv { ctx },
            VmStep::StartEnter => VmAction::StartEnter { ctx },
            VmStep::Done => VmAction::Done,
        }
    }

    /// Make the call that comes next, if it only notes something down for the
    /// context. All other calls are left to the caller.
    ///
    /// The receipt confirms that the call was made with just the arguments that
    /// [`VmRun::action`] names. A VM without vCPUs or without memory is refused;
    /// the features of TSI never are.
    pub fn perform(&self) -> (r: Option<Receipt>)
        ensures
            match note_of(self.spec_action()) {
                Some(note) => r matches Some(receipt) && receipt.spec_note() == note
                    && is_status_for(note, receipt.spec_status()),
                None => r is None,
            },
            self.step == VmStep::AddVsock ==> r->0.spec_status() != -22,
            self.step == VmStep::SetVmConfig ==> r is Some && r->0.spec_note() == (Note::VmConfig {
                ctx: self.ctx,
                cpus: self.config.cpus,
                memory: self.config.memory,
            }),
            self.step == VmStep::DisableImplicitVsock ==> r is Some && r->0.spec_note() == (
            Note::NoImplicitVsock { ctx: self.ctx }),
            self.step == VmStep::AddVsock ==> r is Some && r->0.spec_note() == (Note::Vsock {
                ctx: self.ctx,
                features: if self.config.net {
                    3u32
                } else if self.config.uds {
                    2
                } else {
                    0
                },
            }),
            self.step != VmStep::SetVmConfig && self.step != VmStep::DisableImplicitVsock
                && self.step != VmStep::AddVsock ==> r is None,
    {
        match self.action() {
            VmAction::SetVmConfig { ctx, cpus, memory } => Some(set_vm_config(ctx, cpus, memory)),
            VmAction::DisableImplicitVsock { ctx } => Some(disable_implicit_vsock(ctx)),
            VmAction::AddVsock { ctx, features } => Some(add_vsock(ctx, features)),
            _ => None,
        }
    }

    /// Take note of the status that the last call returned.
    pub fn advance(self, status: i32) -> (r: Result<VmRun, VmFailure>)
        ensures
            r == self.spec_advance(status),
    {
        if status < 0 && self.step != VmStep::CreateContext {
            return Err(VmFailure { step: self.step, status });
        }
        let last = if self.config.has_program {
            VmStep::SetExec
        } else {
            VmStep::SetEnv
        };
        let step = match self.step {
            VmStep::InitLog => VmStep::CreateContext,
            VmStep::CreateContext => VmStep::SetVmConfig,
            VmStep::SetVmConfig => VmStep::AddSerialConsole,
            VmStep::AddSerialConsole => VmStep::DisableImplicitVsock,
            VmStep::DisableImplicitVsock => VmStep::AddVsock,
            VmStep::AddVsock => VmStep::SetKernel,
            VmStep::SetKernel => VmStep::SetRoot,
            VmStep::SetRoot => {
                if self.config.has_env_port() {
                    VmStep::CreateEnvFile
                } else {
                    last
                }
            },
            VmStep::CreateEnvFile => VmStep::AddEnvConsole,
            VmStep::AddEnvConsole => VmStep::AddEnvPort,
            VmStep::AddEnvPort => last,
            VmStep::SetExec => VmStep::StartEnter,
            VmStep::SetEnv => VmStep::StartEnter,
            VmStep::StartEnter => VmStep::Done,
            VmStep::Done => VmStep::Done,
        };
        let mut next = self;
        if next.step == VmStep::CreateContext {
            next.ctx = status as u32;
        }
        if next.step == VmStep::CreateEnvFile {
            next.env_file = status;
        }
        if next.step == VmStep::AddEnvConsole {
            next.console = status as u32;
        }
        next.step = step;
        Ok(next)
    }
}

/// All steps that are taken for `config`, in order.
#[verifier::opaque]
pub open spec fn script(config: VmConfig) -> Seq<VmStep> {
    let logging = if config.verbosity > 0 {
        seq![VmStep::InitLog]
    } else {
        Seq::empty()
    };
    let machine = seq![
        VmStep::CreateContext,
        VmStep::SetVmConfig,
        VmStep::AddSerialConsole,
        VmStep::DisableImplicitVsock,
        VmStep::AddVsock,
        VmStep::SetKernel,
        VmStep::SetRoot,
    ];
    let environment = if config.spec_has_env_port() {
        seq![VmStep::CreateEnvFile, VmStep::AddEnvConsole, VmStep::AddEnvPort]
    } else {
        Seq::empty()
    };
    let process = if config.has_program {
        seq![VmStep::SetExec, VmStep::StartEnter]
    } else {
        seq![VmStep::SetEnv, VmStep::StartEnter]
    };
    logging + machine + environment + process
}

/// The state after calls returned `statuses`, one after the other. Nothing
/// more is done after the first failure.
pub open spec fn run_of(config: VmConfig, statuses: Seq<i32>) -> Result<VmRun, VmFailure>
    decreases statuses.len(),
{
    if statuses.len() == 0 {
        Ok(VmRun::initial(config))
    } else {
        match run_of(config, statuses.drop_last()) {
            Ok(run) => run.spec_advance(statuses.last()),
            Err(failure) => Err(failure),
        }
    }
}

/// Where in the script the context is created.
pub open spec fn creation(config: VmConfig) -> int {
    if config.verbosity > 0 {
        1
    } else {
        0
    }
}

/// Each step of the script leads to the one after it.
proof fn lemma_script_step(config: VmConfig, i: int)
    requires
        0 <= i < script(config).len(),
    ensures
        successor(config, script(config)[i]) == if i + 1 < script(config).len() {
            script(config)[i + 1]
        } else {
            VmStep::Done
        },
{
    reveal(script);
}

/// The first step of the script is the one to start with. Where the context is
/// created, and where the environment variables are offered.
proof fn lemma_script(config: VmConfig)
    ensures
        script(config).len() > creation(config),
        VmRun::initial(config).step == script(config)[0],
        forall|i: int|
            0 <= i < script(config).len() ==> (#[trigger] script(config)[i]
                == VmStep::CreateContext <==> i == creation(config)),
        forall|i: int|
            0 <= i < script(config).len() ==> (#[trigger] script(config)[i] == VmStep::AddEnvPort
                <==> config.spec_has_env_port() && i == creation(config) + 9),
        config.spec_has_env_port() ==> {
            &&& script(config).len() > creation(config) + 9
            &&& script(config)[creation(config) + 7] == VmStep::CreateEnvFile
            &&& script(config)[creation(config) + 8] == VmStep::AddEnvConsole
            &&& script(config)[creation(config) + 9] == VmStep::AddEnvPort
        },
{
    reveal(script);
}

/// As long as no call fails, the steps taken are just those of the script, in
/// its order; after the last one nothing is left to do. The configuration
/// never changes.
pub proof fn run_follows_script(config: VmConfig, statuses: Seq<i32>)
    requires
        statuses.len() <= script(config).len(),
        run_of(config, statuses) is Ok,
    ensures
        run_of(config, statuses)->Ok_0.config == config,
        run_of(config, statuses)->Ok_0.step == if statuses.len() < script(config).len() {
            script(config)[statuses.len() as int]
        } else {
            VmStep::Done
        },
    decreases statuses.len(),
{
    lemma_script(config);
    if statuses.len() > 0 {
        run_follows_script(config, statuses.drop_last());
        lemma_script_step(config, statuses.len() - 1);
    }
}

/// The first step, other than the creation of the context, whose call returns
/// a negative status ends the run; the failure names that step and that
/// status.
pub proof fn run_stops_at_failure(config: VmConfig, statuses: Seq<i32>, at: int)
    requires
        0 <= at < statuses.len() <= script(config).len(),
        run_of(config, statuses.take(at)) is Ok,
        statuses[at] < 0,
        script(config)[at] != VmStep::CreateContext,
    ensures
        run_of(config, statuses) == Err::<VmRun, VmFailure>(
            VmFailure { step: script(config)[at], status: statuses[at] },
        ),
    decreases statuses.len(),
{
    if at == statuses.len() - 1 {
        assert(statuses.drop_last() =~= statuses.take(at));
        run_follows_script(config, statuses.take(at));
    } else {
        let init = statuses.drop_last();
        assert(init.take(at) =~= statuses.take(at));
        run_stops_at_failure(config, init, at);
    }
}

/// Every call that is made for a context is made for the one that was
/// created.
pub proof fn context_is_kept(config: VmConfig, statuses: Seq<i32>)
    requires
        creation(config) < statuses.len() <= script(config).len(),
        run_of(config, statuses) is Ok,
    ensures
        run_of(config, statuses)->Ok_0.ctx == statuses[creation(config)] as u32,
    decreases statuses.len(),
{
    lemma_script(config);
    let init = statuses.drop_last();
    run_follows_script(config, init);
    if statuses.len() > creation(config) + 1 {
        context_is_kept(config, init);
        assert(script(config)[init.len() as int] != VmStep::CreateContext);
    }
}

/// The port that is added for the environment variables is an input port with
/// the name that the guest looks for. What it delivers is the file that was
/// created just for this, which holds the payload.
pub proof fn env_port_delivers_payload(config: VmConfig, statuses: Seq<i32>)
    requires
        statuses.len() <= script(config).len(),
        run_of(config, statuses) is Ok,
        run_of(config, statuses)->Ok_0.step == VmStep::AddEnvPort,
    ensures
        statuses.len() >= 3,
        run_of(config, statuses)->Ok_0.spec_action() == (VmAction::AddEnvPort {
            ctx: statuses[creation(config)] as u32,
            console: statuses[statuses.len() - 1] as u32,
            name: ENV_PORT,
            input: statuses[statuses.len() - 2],
            output: -1i32,
        }),
        run_of(config, statuses.take(statuses.len() - 2)) is Ok,
        run_of(config, statuses.take(statuses.len() - 2))->Ok_0.spec_action() == (
        VmAction::CreateEnvFile { content: &config.env_content }),
{
    lemma_script(config);
    run_follows_script(config, statuses);
    context_is_kept(config, statuses);
    let console_added = statuses.drop_last();
    run_follows_script(config, console_added);
    let file_created = console_added.drop_last();
    run_follows_script(config, file_created);
    assert(file_created =~= statuses.take(statuses.len() - 2));
}

/// There is a port for the environment variables just if there are any, and
/// the init process of the guest is told just then.
pub proof fn env_port_is_announced(
    config: VmConfig,
    hostname: Seq<char>,
    home: Option<Seq<char>>,
    unlink_paths: Seq<Seq<char>>,
    redirected: Redirected,
)
    ensures
        script(config).contains(VmStep::AddEnvPort) <==> config.env_content@.len() > 0,
        sets_variable(
            init_env(hostname, home, unlink_paths, config.spec_has_env_port(), redirected),
            ENV_PORT_VAR@,
        ) <==> config.env_content@.len() > 0,
{
    lemma_script(config);
    init_env_tells_guest(hostname, home, unlink_paths, config.spec_has_env_port(), redirected);
    if config.spec_has_env_port() {
        assert(script(config)[creation(config) + 9] == VmStep::AddEnvPort);
    }
}

/// What each call hands over is what was configured: the level of logging, the
/// number of vCPUs, the amount of memory, the sockets that are impersonated, and
/// the environment variables. Every call is made for the context of the run. The
/// kernel is heard on standard error just if verbosity was asked for.
pub proof fn calls_carry_configuration(run: VmRun)
    ensures
        ({
            let action = run.spec_action();
            let ctx = run.ctx;
            let config = run.config;
            &&& run.step == VmStep::InitLog ==> action == (VmAction::InitLog {
                target: 2,
                level: config.verbosity as u32,
                style: 2,
                options: 0,
            })
            &&& run.step == VmStep::CreateContext ==> action == VmAction::CreateContext
            &&& run.step == VmStep::SetVmConfig ==> action == (VmAction::SetVmConfig {
                ctx,
                cpus: config.cpus,
                memory: config.memory,
            })
            &&& run.step == VmStep::AddSerialConsole ==> action == (VmAction::AddSerialConsole {
                ctx,
                input: -1i32,
                output: if config.verbosity > 0 {
                    2i32
                } else {
                    -1i32
                },
            })
            &&& run.step == VmStep::DisableImplicitVsock ==> action == (
            VmAction::DisableImplicitVsock { ctx })
            &&& run.step == VmStep::AddVsock ==> action == (VmAction::AddVsock {
                ctx,
                features: if config.net {
                    3u32
                } else if config.uds {
                    2
                } else {
                    0
                },
            })
            &&& run.step == VmStep::SetKernel ==> action == (VmAction::SetKernel { ctx })
            &&& run.step == VmStep::SetRoot ==> (action matches VmAction::SetRoot { ctx: c, path }
                && c == ctx && path@ == "/"@)
            &&& run.step == VmStep::CreateEnvFile ==> (action matches VmAction::CreateEnvFile {
                content,
            } && content@ == config.env_content@)
            &&& run.step == VmStep::AddEnvConsole ==> action == (VmAction::AddEnvConsole { ctx })
            &&& run.step == VmStep::AddEnvPort ==> (action matches VmAction::AddEnvPort {
                ctx: c,
                console,
                name,
                input,
                output,
            } && c == ctx && console == run.console && name@ == "krun-env"@ && input == run.env_file
                && output == -1)
            &&& run.step == VmStep::SetExec ==> action == (VmAction::SetExec { ctx })
            &&& run.step == VmStep::SetEnv ==> action == (VmAction::SetEnv { ctx })
            &&& run.step == VmStep::StartEnter ==> action == (VmAction::StartEnter { ctx })
            &&& run.step == VmStep::Done ==> action == VmAction::Done
        }),
{
}

/// Which calls are made for a configuration, in which order. Logging is set up
/// only if verbosity was asked for, and the environment variables are offered
/// only if there are any. A program is set if there is one, and else just the
/// environment. Running the VM comes last.
pub proof fn setup_order(config: VmConfig)
    ensures
        ({
            let all = script(config);
            let c = if config.verbosity > 0 {
                1int
            } else {
                0
            };
            let e = c + 7 + if config.env_content@.len() > 0 {
                3int
            } else {
                0
            };
            &&& all.len() == e + 2
            &&& config.verbosity > 0 ==> all[0] == VmStep::InitLog
            &&& all[c] == VmStep::CreateContext
            &&& all[c + 1] == VmStep::SetVmConfig
            &&& all[c + 2] == VmStep::AddSerialConsole
            &&& all[c + 3] == VmStep::DisableImplicitVsock
            &&& all[c + 4] == VmStep::AddVsock
            &&& all[c + 5] == VmStep::SetKernel
            &&& all[c + 6] == VmStep::SetRoot
            &&& config.env_content@.len() > 0 ==> all[c + 7] == VmStep::CreateEnvFile && all[c + 8]
                == VmStep::AddEnvConsole && all[c + 9] == VmStep::AddEnvPort
            &&& all[e] == if config.has_program {
                VmStep::SetExec
            } else {
                VmStep::SetEnv
            }
            &&& all[e + 1] == VmStep::StartEnter
        }),
{
    reveal(script);
}

/// A run starts with what was configured, and with the first step of its script.
/// What a call returns ends the run just if it is negative and the call is not
/// the one that creates the context; the failure then names the step and the
/// status. Otherwise the configuration stays, and only the call that creates
/// something determines its number.
pub proof fn statuses_are_noted(config: VmConfig, run: VmRun, status: i32)
    ensures
        VmRun::initial(config).config == config,
        VmRun::initial(config).step == script(config)[0],
        run.spec_advance(status) is Err <==> status < 0 && run.step != VmStep::CreateContext,
        run.spec_advance(status) matches Err(failure) ==> failure.step == run.step
            && failure.status == status,
        run.spec_advance(status) matches Ok(next) ==> {
            &&& next.config == run.config
            &&& next.ctx == if run.step == VmStep::CreateContext {
                status as u32
            } else {
                run.ctx
            }
            &&& next.env_file == if run.step == VmStep::CreateEnvFile {
                status
            } else {
                run.env_file
            }
            &&& next.console == if run.step == VmStep::AddEnvConsole {
                status as u32
            } else {
                run.console
            }
        },
{
    lemma_script(config);
}

/// What is said of a failure depends on the step, and on the status only where a
/// kernel or a VM is refused.
pub proof fn failures_tell_why(status: i32)
    ensures
        ({
            let text = |step: VmStep| VmFailure { step, status }.text();
            let code = " (code "@ + signed_decimal(status as int) + ")"@;
            &&& text(VmStep::InitLog) == "failed to set log level"@
            &&& text(VmStep::SetVmConfig) == "failed to set VM config"@
            &&& text(VmStep::AddSerialConsole) == "failed to add serial console"@
            &&& text(VmStep::DisableImplicitVsock) == "failed to disable implicit vsock"@
            &&& text(VmStep::AddVsock) == "failed to add vsock device"@
            &&& text(VmStep::SetKernel) == "failed to set kernel"@ + code
            &&& text(VmStep::SetRoot) == "failed to set root filesystem"@
            &&& text(VmStep::CreateEnvFile) == "failed to create memfd for env vars"@
            &&& text(VmStep::AddEnvConsole) == "failed to add virtio console for env port"@
            &&& text(VmStep::AddEnvPort) == "failed to add env console port"@
            &&& text(VmStep::SetExec) == "failed to set exec command"@
            &&& text(VmStep::SetEnv) == "failed to set environment"@
            &&& text(VmStep::StartEnter) == "failed to start VM"@ + code
        }),
{
    let code = " (code "@ + signed_decimal(status as int) + ")"@;
    assert((VmFailure { step: VmStep::SetKernel, status }).text() =~= "failed to set kernel"@
        + code);
    assert((VmFailure { step: VmStep::StartEnter, status }).text() =~= "failed to start VM"@
        + code);
}

/// The kernel is told to run the init binary at the very path given, from a
/// writable virtiofs, and to be quiet just below verbosity 2.
pub proof fn kernel_runs_init(init_path: Seq<char>, verbosity: u8)
    ensures
        cmdline(init_path, verbosity)
            == "earlycon=uart,io,0x3f8 reboot=k panic=5 console=hvc0 rootfstype=virtiofs rw init="@
            + init_path + if verbosity < 2 {
            " quiet"@
        } else {
            " "@
        },
{
    reveal_strlit(" quiet");
    reveal_strlit(" ");
    reveal_strlit("quiet");
    reveal_strlit("");
    assert(" "@ + "quiet"@ =~= " quiet"@);
    assert(" "@ + ""@ =~= " "@);
    let start =
        "earlycon=uart,io,0x3f8 reboot=k panic=5 console=hvc0 rootfstype=virtiofs rw init="@;
    assert(start + init_path + " "@ + "quiet"@ =~= start + init_path + (" "@ + "quiet"@));
    assert(start + init_path + " "@ + ""@ =~= start + init_path + (" "@ + ""@));
}

/// Paths are joined by `:`, each as it is and in the order given.
pub proof fn joining_adds_a_colon(paths: Seq<Seq<char>>, path: Seq<char>)
    ensures
        joined(seq![path]) == path,
        paths.len() > 0 ==> joined(paths.push(path)) == joined(paths) + ":"@ + path,
{
    assert(paths.push(path).drop_last() =~= paths);
}

/// Which entries the init process gets: the host name, the home directory or
/// `/root`, and one entry for each thing that applies, in this order.
pub proof fn init_env_entries(
    hostname: Seq<char>,
    home: Option<Seq<char>>,
    unlink_paths: Seq<Seq<char>>,
    has_env_port: bool,
    redirected: Redirected,
)
    ensures
        ({
            let env = init_env(hostname, home, unlink_paths, has_env_port, redirected);
            let port = 2 + if unlink_paths.len() > 0 {
                1int
            } else {
                0
            };
            let stdin = port + if has_env_port {
                1int
            } else {
                0
            };
            let stdout = stdin + if redirected.stdin {
                1int
            } else {
                0
            };
            let stderr = stdout + if redirected.stdout {
                1int
            } else {
                0
            };
            &&& env.len() == stderr + if redirected.stderr {
                1int
            } else {
                0
            }
            &&& env[0] == "HOSTNAME="@ + hostname
            &&& home matches Some(home) ==> env[1] == "HOME="@ + home
            &&& home is None ==> env[1] == "HOME=/root"@
            &&& unlink_paths.len() > 0 ==> env[2] == "VMSH_UNLINK="@ + joined(unlink_paths)
            &&& has_env_port ==> env[port] == "VMSH_ENV_PORT=1"@
            &&& redirected.stdin ==> env[stdin] == "VMSH_STDIN=1"@
            &&& redirected.stdout ==> env[stdout] == "VMSH_STDOUT=1"@
            &&& redirected.stderr ==> env[stderr] == "VMSH_STDERR=1"@
        }),
{
}

/// Nothing is found to contain a NUL just if nothing does. Otherwise what counts
/// is the first part that contains one, and the first NUL byte in it.
pub proof fn first_nul_counts(clean: Seq<Seq<char>>, part: Seq<char>, rest: Seq<Seq<char>>)
    requires
        forall|i: int| 0 <= i < clean.len() ==> !(#[trigger] clean[i]).contains('\0'),
        part.contains('\0'),
    ensures
        first_nul(clean) is None,
        first_nul(clean + seq![part] + rest) == Some(first_index(encode_utf8(part), 0)),
    decreases clean.len(),
{
    let all = clean + seq![part] + rest;
    if clean.len() > 0 {
        let shorter = clean.drop_first();
        assert forall|i: int| 0 <= i < shorter.len() implies !(#[trigger] shorter[i]).contains(
            '\0',
        ) by {
            assert(shorter[i] == clean[i + 1]);
        }
        first_nul_counts(shorter, part, rest);
        assert(all.drop_first() =~= shorter + seq![part] + rest);
        assert(all[0] == clean[0]);
    } else {
        assert(all[0] == part);
    }
}

/// The program of a command is its first word, and the arguments are the others,
/// in their order; only an empty command stands for no program. All of them, and
/// the entry with the files to remove in front of them, have to be free of NUL.
pub proof fn commands_are_kept(
    program: Option<Program>,
    command: Seq<String>,
    unlink_paths: Seq<Seq<char>>,
    i: int,
)
    requires
        is_program(program, texts(command)),
    ensures
        program is None <==> command.len() == 0,
        program matches Some(program) ==> {
            &&& program.path@ == command[0]@
            &&& program.args@.len() == command.len() - 1
            &&& 0 <= i < command.len() - 1 ==> program.args@[i]@ == command[i + 1]@
        },
        unlink_paths.len() == 0 ==> doubtful_parts(unlink_paths, texts(command)) == texts(command),
        unlink_paths.len() > 0 ==> doubtful_parts(unlink_paths, texts(command)) == seq![
            "VMSH_UNLINK="@ + joined(unlink_paths),
        ] + texts(command),
{
    assert(texts(command).len() == command.len());
    if let Some(program) = program {
        assert(texts(program.args@) == texts(command).drop_first());
        assert(texts(program.args@).len() == program.args@.len());
        if 0 <= i < command.len() - 1 {
            assert(texts(program.args@)[i] == program.args@[i]@);
            assert(texts(command)[i + 1] == command[i + 1]@);
        }
    }
    if unlink_paths.len() == 0 {
        assert(doubtful_parts(unlink_paths, texts(command)) =~= texts(command));
    }
}

/// Texts are taken as they are, each at its place.
pub proof fn texts_are_taken_as_they_are(strings: Seq<String>, i: int, text: &str)
    ensures
        texts(strings).len() == strings.len(),
        0 <= i < strings.len() ==> texts(strings)[i] == strings[i]@,
        optional_text(Some(text)) == Some(text@),
        optional_text(None) is None,
{
}

} // verus!
