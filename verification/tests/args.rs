//! Command line arguments.

use vmsh::args::{
    canonicalize_path, Args, Command, EmbedArgs, KernelNotFound, KernelSource, PathError, RunArgs,
    DEFAULT_CPUS, DEFAULT_MEMORY, NO_KERNEL,
};
use vmsh::embed::{extract_embedded_kernel, ExtractError};

/// Arguments as they are without any flag.
fn run_args() -> RunArgs {
    RunArgs {
        kernel: None,
        cpus: DEFAULT_CPUS,
        memory: DEFAULT_MEMORY,
        net: false,
        uds: false,
        command: Vec::new(),
        env_vars: Vec::new(),
        all_envs: false,
        share_rw: Vec::new(),
        no_uid_map: false,
        verbosity: 0,
    }
}

/// The VM has two CPUs and 1 GiB of memory unless told otherwise.
#[test]
fn defaults() {
    assert_eq!(DEFAULT_CPUS, 2);
    assert_eq!(DEFAULT_MEMORY, 1024);
}

/// `run` is the default subcommand.
#[test]
fn run_by_default() {
    let mut args = run_args();
    args.cpus = 7;
    match (Args { command: None, args }).selected() {
        Command::Run(args) => assert_eq!(args.cpus, 7),
        Command::Embed(_) => panic!("`embed` was not asked for"),
    }
}

/// A subcommand takes precedence.
#[test]
fn subcommand_selected() {
    let mut inner = run_args();
    inner.cpus = 3;
    let args = Args { command: Some(Command::Run(inner)), args: run_args() };
    match args.selected() {
        Command::Run(args) => assert_eq!(args.cpus, 3),
        Command::Embed(_) => panic!("`embed` was not asked for"),
    }

    let embed = EmbedArgs { kernel: b"k".to_vec(), output: None };
    let args = Args { command: Some(Command::Embed(embed)), args: run_args() };
    match args.selected() {
        Command::Embed(args) => assert_eq!(args.kernel, b"k"),
        Command::Run(_) => panic!("`run` was not asked for"),
    }
}

/// The arguments of `embed` can be written down again.
#[test]
fn embed_arguments() {
    let args = EmbedArgs { kernel: b"k".to_vec(), output: None };
    assert_eq!(args.arguments(), vec![b"embed".to_vec(), b"k".to_vec()]);
    let args = EmbedArgs { kernel: b"k".to_vec(), output: Some(b"o".to_vec()) };
    assert_eq!(
        args.arguments(),
        vec![b"embed".to_vec(), b"k".to_vec(), b"-o".to_vec(), b"o".to_vec()]
    );
}

/// A path without delimiters is accepted.
#[test]
fn path_accepted() {
    assert_eq!(canonicalize_path(Some(b"/home/a b".to_vec())), Ok(b"/home/a b".to_vec()));
    assert_eq!(canonicalize_path(Some(b"/\xff".to_vec())), Ok(b"/\xff".to_vec()));
}

/// A path with a delimiter is refused.
#[test]
fn path_reserved() {
    assert_eq!(canonicalize_path(Some(b"/a:b".to_vec())), Err(PathError::Reserved));
    assert_eq!(canonicalize_path(Some(b"/a;".to_vec())), Err(PathError::Reserved));
    assert_eq!(
        PathError::Reserved.describe("/a:b"),
        "path `/a:b` contains reserved delimiter characters (':' or ';')"
    );
}

/// A path that does not exist is refused.
#[test]
fn path_unresolved() {
    assert_eq!(canonicalize_path(None), Err(PathError::Unresolved));
    assert_eq!(PathError::Unresolved.describe("nowhere"), "failed to resolve path `nowhere`");
}

/// An explicit kernel has to exist, and overrides an embedded one.
#[test]
fn explicit_kernel() {
    let mut args = run_args();
    args.kernel = Some(b"/boot/vmlinux".to_vec());
    assert_eq!(args.resolve_kernel(true), Ok(KernelSource::Explicit));
    assert_eq!(args.resolve_kernel(false), Err(KernelNotFound));
    assert_eq!(
        KernelNotFound.describe("/boot/vmlinux"),
        "failed to find kernel at `/boot/vmlinux`"
    );
}

/// Check that running without a kernel and without an embedded one is an error
/// that says so.
#[test]
fn no_kernel_no_embed_errors() {
    let args = run_args();
    assert_eq!(args.resolve_kernel(false), Ok(KernelSource::Embedded));
    let error = extract_embedded_kernel(b"\x7fELF a binary without a kernel").unwrap_err();
    assert_eq!(error, ExtractError::MissingTrailer);
    let stderr = format!("{}: {}", NO_KERNEL, error.describe());
    assert!(
        stderr.contains("no kernel specified") || stderr.contains("no embedded kernel"),
        "error should mention missing kernel, got: {stderr:?}"
    );
}
