//! What the operating system and the standard library contribute: values
//! fixed by the Linux ABI, as `libc` has them, and the handling of UTF-8 by
//! `std`.

use vstd::prelude::*;
use vstd::utf8::{decode_utf8, valid_utf8};

verus! {

/// The text that `String::from_utf8_lossy` makes of `bytes`.
pub uninterp spec fn utf8_lossy(bytes: Seq<u8>) -> Seq<char>;

/// Calls [`String::from_utf8_lossy`].
///
/// The result is a function of the bytes alone; bytes that are valid UTF-8
/// are taken over as they are. Invalid bytes are replaced, never by nothing and
/// never by NUL; how many of them are replaced at a time is left unsaid.
#[verifier::external_body]
pub(crate) fn text_from_utf8_lossy(bytes: &[u8]) -> (r: String)
    ensures
        r@ == utf8_lossy(bytes@),
        valid_utf8(bytes@) ==> r@ == decode_utf8(bytes@),
        !bytes@.contains(0) ==> !r@.contains('\0'),
        bytes@.len() > 0 ==> r@.len() > 0,
{
    String::from_utf8_lossy(bytes).into_owned()
}

/// Reads [`libc::STDIN_FILENO`], the file descriptor of standard input.
#[verifier::external_body]
pub(crate) fn stdin_fileno() -> (r: i32)
    ensures
        r == 0,
{
    libc::STDIN_FILENO
}

/// Reads [`libc::STDOUT_FILENO`], the file descriptor of standard output.
#[verifier::external_body]
pub(crate) fn stdout_fileno() -> (r: i32)
    ensures
        r == 1,
{
    libc::STDOUT_FILENO
}

/// Reads [`libc::STDERR_FILENO`], the file descriptor of standard error.
#[verifier::external_body]
pub(crate) fn stderr_fileno() -> (r: i32)
    ensures
        r == 2,
{
    libc::STDERR_FILENO
}

/// Reads [`libc::EBUSY`], the error number for a busy resource.
#[verifier::external_body]
pub(crate) fn ebusy() -> (r: i32)
    ensures
        r == 16,
{
    libc::EBUSY
}

/// Reads [`libc::ENOENT`], the error number for a missing file.
#[verifier::external_body]
pub(crate) fn enoent() -> (r: i32)
    ensures
        r == 2,
{
    libc::ENOENT
}

/// Reads [`libc::MS_NOSUID`], the flag for a mount that ignores set-user-ID bits.
#[verifier::external_body]
pub(crate) fn ms_nosuid() -> (r: u64)
    ensures
        r == 0x2,
{
    libc::MS_NOSUID as u64
}

/// Reads [`libc::MS_NODEV`], the flag for a mount that disallows device files.
#[verifier::external_body]
pub(crate) fn ms_nodev() -> (r: u64)
    ensures
        r == 0x4,
{
    libc::MS_NODEV as u64
}

/// Reads [`libc::MS_NOEXEC`], the flag for a mount that disallows programs.
#[verifier::external_body]
pub(crate) fn ms_noexec() -> (r: u64)
    ensures
        r == 0x8,
{
    libc::MS_NOEXEC as u64
}

/// Reads [`libc::MS_RELATIME`], the flag for a mount that updates access times
/// relative to modification times.
#[verifier::external_body]
pub(crate) fn ms_relatime() -> (r: u64)
    ensures
        r == 0x200000,
{
    libc::MS_RELATIME as u64
}

} // verus!
