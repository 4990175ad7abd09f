//! Embed a kernel image into the `vmsh` binary, and extract it again.
//!
//! The binary layout after embedding:
//! ```text
//! [original ELF] [kernel bytes] [u64 LE: kernel size] [magic: "VMSHKRNL"]
//! ```

use vstd::arithmetic::power::pow;
use vstd::prelude::*;
use vstd::string::*;

use crate::args::EmbedArgs;
use crate::bytes::{bytes_equal, push_le_u64, read_le_u64};
use crate::text::{decimal, push_decimal};

verus! {

/// Trailer magic written after the kernel payload: `VMSHKRNL`.
pub const MAGIC: [u8; 8] = [0x56, 0x4d, 0x53, 0x48, 0x4b, 0x52, 0x4e, 0x4c];

/// Total trailer size: 8 bytes kernel size + 8 bytes magic.
pub const TRAILER_SIZE: usize = 16;

/// Environment variable used to tell a re-executed copy to clean itself up
/// after it finishes writing.
pub const CLEANUP_ENV: &'static str = "VMSH_EMBED_CLEANUP";

/// A binary that ends in a trailer: a size field followed by the magic.
pub open spec fn has_trailer(binary: Seq<u8>) -> bool {
    &&& binary.len() >= TRAILER_SIZE
    &&& binary.skip(binary.len() - 8) == MAGIC@
}

/// The kernel size that the trailer of `binary` claims.
pub open spec fn trailer_size(binary: Seq<u8>) -> nat
    recommends
        has_trailer(binary),
{
    crate::bytes::le_value(binary.subrange(binary.len() - 16, binary.len() - 8))
}

/// A binary whose trailer claims no more bytes than there are before it.
pub open spec fn has_kernel(binary: Seq<u8>) -> bool {
    has_trailer(binary) && trailer_size(binary) + TRAILER_SIZE <= binary.len()
}

/// The kernel that `binary` carries in front of its trailer.
pub open spec fn kernel_of(binary: Seq<u8>) -> Seq<u8>
    recommends
        has_kernel(binary),
{
    binary.subrange(
        binary.len() - TRAILER_SIZE - trailer_size(binary),
        binary.len() - TRAILER_SIZE,
    )
}

/// `binary` without the kernel that it carries, if any.
pub open spec fn stripped(binary: Seq<u8>) -> Seq<u8> {
    if has_kernel(binary) {
        binary.take(binary.len() - TRAILER_SIZE - trailer_size(binary))
    } else {
        binary
    }
}

/// The layout of a binary that carries `kernel` behind `base`.
pub open spec fn with_kernel(base: Seq<u8>, kernel: Seq<u8>) -> Seq<u8> {
    base + kernel + crate::bytes::le_bytes(kernel.len(), 8) + MAGIC@
}

/// Check whether a binary ends in a trailer.
fn check_trailer(binary: &[u8]) -> (r: bool)
    ensures
        r == has_trailer(binary@),
{
    let len = binary.len();
    if len < TRAILER_SIZE {
        return false;
    }
    let magic = vstd::slice::slice_subrange(binary, len - 8, len);
    assert(magic@ =~= binary@.skip(len - 8));
    bytes_equal(magic, MAGIC.as_slice())
}

/// Strip a `VMSHKRNL` trailer, and the kernel in front of it, from a binary
/// blob, if present.
///
/// A trailer that claims more kernel bytes than the blob holds is left
/// alone.
pub fn strip_trailer(binary: &mut Vec<u8>)
    ensures
        final(binary)@ == stripped(old(binary)@),
{
    if !check_trailer(binary.as_slice()) {
        return ;
    }
    let payload_end: usize = binary.len() - TRAILER_SIZE;
    let kernel_size: u64 = read_le_u64(binary.as_slice(), payload_end);
    // The kernel must fit within the file (minus the trailer).
    if kernel_size <= payload_end as u64 {
        binary.truncate(payload_end - kernel_size as usize);
    }
}

/// Why a kernel could not be embedded.
#[derive(Clone, Copy, Debug, PartialEq, Eq, Structural)]
pub enum EmbedError {
    /// The kernel file holds no bytes.
    EmptyKernel,
}

impl EmbedError {
    /// Describe the error.
    pub fn describe(&self) -> (r: &'static str)
        ensures
            r@ == match *self {
                EmbedError::EmptyKernel => "kernel file is empty"@,
            },
    {
        match *self {
            EmbedError::EmptyKernel => "kernel file is empty",
        }
    }
}

/// Embed `kernel` into `binary`, in place of a kernel that it may carry
/// already.
pub fn embed_kernel(binary: Vec<u8>, kernel: &[u8]) -> (r: Result<Vec<u8>, EmbedError>)
    ensures
        r == Err::<Vec<u8>, EmbedError>(EmbedError::EmptyKernel) <==> kernel@.len() == 0,
        kernel@.len() > 0 ==> (r matches Ok(out) && out@ == with_kernel(
            stripped(binary@),
            kernel@,
        )),
{
    let mut out = binary;
    strip_trailer(&mut out);
    if kernel.len() == 0 {
        return Err(EmbedError::EmptyKernel);
    }
    out.extend_from_slice(kernel);
    push_le_u64(&mut out, kernel.len() as u64);
    out.extend_from_slice(MAGIC.as_slice());
    assert(out@ =~= with_kernel(stripped(binary@), kernel@));
    Ok(out)
}

/// Why no kernel could be extracted.
#[derive(Clone, Copy, Debug, PartialEq, Eq, Structural)]
pub enum ExtractError {
    /// The binary is shorter than a trailer.
    TooSmall,
    /// The binary does not end in the trailer magic.
    MissingTrailer,
    /// The trailer claims more kernel bytes than there are in front of it.
    CorruptSize,
}

impl ExtractError {
    /// Describe the error.
    pub fn describe(&self) -> (r: &'static str)
        ensures
            r@ == match *self {
                ExtractError::TooSmall => "binary too small to contain an embedded kernel"@,
                ExtractError::MissingTrailer =>
                    "no embedded kernel found (missing VMSHKRNL trailer)"@,
                ExtractError::CorruptSize => "failed to seek to kernel data"@,
            },
    {
        match *self {
            ExtractError::TooSmall => "binary too small to contain an embedded kernel",
            ExtractError::MissingTrailer => "no embedded kernel found (missing VMSHKRNL trailer)",
            ExtractError::CorruptSize => "failed to seek to kernel data",
        }
    }
}

/// Extract the embedded kernel from the contents of a binary.
pub fn extract_embedded_kernel(binary: &[u8]) -> (r: Result<Vec<u8>, ExtractError>)
    ensures
        r == Err::<Vec<u8>, ExtractError>(ExtractError::TooSmall) <==> binary@.len()
            < TRAILER_SIZE,
        r == Err::<Vec<u8>, ExtractError>(ExtractError::MissingTrailer) <==> binary@.len()
            >= TRAILER_SIZE && !has_trailer(binary@),
        r == Err::<Vec<u8>, ExtractError>(ExtractError::CorruptSize) <==> has_trailer(binary@)
            && !has_kernel(binary@),
        has_kernel(binary@) ==> (r matches Ok(kernel) && kernel@ == kernel_of(binary@)),
{
    if binary.len() < TRAILER_SIZE {
        return Err(ExtractError::TooSmall);
    }
    if !check_trailer(binary) {
        return Err(ExtractError::MissingTrailer);
    }
    let payload_end: usize = binary.len() - TRAILER_SIZE;
    let kernel_size: u64 = read_le_u64(binary, payload_end);
    if kernel_size > payload_end as u64 {
        return Err(ExtractError::CorruptSize);
    }
    let kernel_start: usize = payload_end - kernel_size as usize;
    let kernel = vstd::slice::slice_subrange(binary, kernel_start, payload_end);
    Ok(vstd::slice::slice_to_vec(kernel))
}

/// A binary laid out by [`embed_kernel`] carries just the kernel that was put
/// into it, and stripping it leaves just what the kernel was put behind.
pub proof fn embedded_kernel_is_found(base: Seq<u8>, kernel: Seq<u8>)
    requires
        kernel.len() <= u64::MAX,
    ensures
        has_kernel(with_kernel(base, kernel)),
        kernel_of(with_kernel(base, kernel)) == kernel,
        stripped(with_kernel(base, kernel)) == base,
{
    let binary = with_kernel(base, kernel);
    crate::bytes::lemma_byte_range_8();
    crate::bytes::lemma_le_round_trip(kernel.len(), 8);
    assert(binary.skip(binary.len() - 8) =~= MAGIC@);
    assert(binary.subrange(binary.len() - 16, binary.len() - 8) =~= crate::bytes::le_bytes(
        kernel.len(),
        8,
    ));
    assert(kernel_of(binary) =~= kernel);
    assert(stripped(binary) =~= base);
}

/// Embedding a second kernel replaces the first one: the outcome is that of
/// embedding the second one only. This holds for every binary.
pub proof fn embedding_replaces(binary: Seq<u8>, first: Seq<u8>, second: Seq<u8>)
    requires
        first.len() <= u64::MAX,
    ensures
        with_kernel(stripped(with_kernel(stripped(binary), first)), second) == with_kernel(
            stripped(binary),
            second,
        ),
{
    embedded_kernel_is_found(stripped(binary), first);
}

/// Stripping twice is stripping once, unless what is left after the first
/// time carries a kernel itself; in that case the second time removes it.
pub proof fn strip_idempotent(binary: Seq<u8>)
    ensures
        stripped(stripped(binary)) == stripped(binary) <==> !has_kernel(stripped(binary)),
{
    let once = stripped(binary);
    if has_kernel(once) {
        assert(stripped(once).len() < once.len());
    }
}

/// Stripping never adds or changes a byte: what is left is a prefix.
pub proof fn strip_keeps_prefix(binary: Seq<u8>)
    ensures
        stripped(binary).len() <= binary.len(),
        stripped(binary) == binary.take(stripped(binary).len() as int),
{
    assert(stripped(binary) =~= binary.take(stripped(binary).len() as int));
}

/// How to go about embedding a kernel.
#[derive(Debug)]
pub enum EmbedPlan {
    /// Execute a copy of this binary with these arguments.
    Reexec(EmbedArgs),
    /// Write a new binary to this path.
    Write(Vec<u8>),
}

/// The plan for `args`, in a process that runs the binary at `self_path`.
pub open spec fn is_plan(plan: EmbedPlan, args: EmbedArgs, self_path: Seq<u8>) -> bool {
    match args.output {
        Some(path) => plan == EmbedPlan::Write(path),
        None => {
            &&& plan matches EmbedPlan::Reexec(copied)
            &&& copied.kernel == args.kernel
            &&& copied.output matches Some(path) && path@ == self_path
        },
    }
}

/// Decide how to go about embedding a kernel.
///
/// If no output path is given, the current executable is overwritten in
/// place. A running executable cannot be written to, so that a copy of it has
/// to do that, with the path of the original as its output path.
pub fn plan_embed(args: EmbedArgs, self_path: &[u8]) -> (r: EmbedPlan)
    ensures
        is_plan(r, args, self_path@),
{
    match args.output {
        Some(path) => EmbedPlan::Write(path),
        None => EmbedPlan::Reexec(
            EmbedArgs {
                kernel: args.kernel,
                output: Some(vstd::slice::slice_to_vec(self_path)),
            },
        ),
    }
}

/// A copy that is executed in order to overwrite the original embeds the same
/// kernel, writes to the original, wherever the copy itself is, and is not
/// copied again.
pub proof fn copy_overwrites_original(
    args: EmbedArgs,
    self_path: Seq<u8>,
    copied: EmbedArgs,
    copy_path: Seq<u8>,
    plan: EmbedPlan,
)
    requires
        is_plan(EmbedPlan::Reexec(copied), args, self_path),
        is_plan(plan, copied, copy_path),
    ensures
        copied.kernel == args.kernel,
        plan matches EmbedPlan::Write(path) && path@ == self_path,
{
}

/// The text that reports that a kernel of `size` bytes was embedded.
pub open spec fn embed_report(size: u64, kernel: Seq<char>, output: Seq<char>) -> Seq<char> {
    "embedded "@ + decimal((size / 1024) as nat) + " KiB kernel from `"@ + kernel + "` into `"@
        + output + "`"@
}

/// Report that the kernel at `kernel`, which has `size` bytes, was embedded
/// into the binary at `output`.
pub fn report_embedding(size: u64, kernel: &str, output: &str) -> (r: String)
    ensures
        r@ == embed_report(size, kernel@, output@),
{
    let mut out = String::new();
    out.append("embedded ");
    push_decimal(&mut out, size / 1024);
    out.append(" KiB kernel from `");
    out.append(kernel);
    out.append("` into `");
    out.append(output);
    out.append("`");
    assert(out@ =~= embed_report(size, kernel@, output@));
    out
}

/// A binary that does not end in `VMSHKRNL` carries no kernel: there is nothing
/// to extract from it, stripping leaves it as it is, and embedding a kernel
/// keeps all of its bytes as the start of the outcome.
pub proof fn no_magic_no_kernel(binary: Seq<u8>, kernel: Seq<u8>)
    requires
        binary.len() < 16 || binary.skip(binary.len() - 8) != seq![
            0x56u8,
            0x4d,
            0x53,
            0x48,
            0x4b,
            0x52,
            0x4e,
            0x4c,
        ],
    ensures
        !has_trailer(binary),
        !has_kernel(binary),
        stripped(binary) == binary,
        with_kernel(stripped(binary), kernel).len() == binary.len() + kernel.len() + 16,
        with_kernel(stripped(binary), kernel).take(binary.len() as int) == binary,
{
    assert(MAGIC@ =~= seq![0x56u8, 0x4d, 0x53, 0x48, 0x4b, 0x52, 0x4e, 0x4c]);
    embedded_layout(binary, kernel);
}

/// Where everything is in a binary that a kernel was embedded into: the binary,
/// the kernel, the size of the kernel to the base 256 with the least significant
/// byte first, and `VMSHKRNL`.
pub proof fn embedded_layout(base: Seq<u8>, kernel: Seq<u8>)
    ensures
        ({
            let out = with_kernel(base, kernel);
            let end = (base.len() + kernel.len()) as int;
            &&& out.len() == end + 16
            &&& out.take(base.len() as int) == base
            &&& out.subrange(base.len() as int, end) == kernel
            &&& forall|i: int|
                0 <= i < 8 ==> #[trigger] out[end + i] == (kernel.len() as int / pow(
                    256,
                    i as nat,
                )) % 256
            &&& out.skip(end + 8) == seq![0x56u8, 0x4d, 0x53, 0x48, 0x4b, 0x52, 0x4e, 0x4c]
        }),
{
    let out = with_kernel(base, kernel);
    let end = (base.len() + kernel.len()) as int;
    let size = crate::bytes::le_bytes(kernel.len(), 8);
    crate::bytes::bytes_are_digits(kernel.len(), 8, 0);
    assert(out.take(base.len() as int) =~= base);
    assert(out.subrange(base.len() as int, end) =~= kernel);
    assert forall|i: int| 0 <= i < 8 implies #[trigger] out[end + i] == (kernel.len() as int / pow(
        256,
        i as nat,
    )) % 256 by {
        crate::bytes::bytes_are_digits(kernel.len(), 8, i);
        assert(out[end + i] == size[i]);
    }
    assert(out.skip(end + 8) =~= seq![0x56u8, 0x4d, 0x53, 0x48, 0x4b, 0x52, 0x4e, 0x4c]);
}

/// What the last sixteen bytes of a binary say: it carries a kernel just if the
/// last eight are `VMSHKRNL` and the eight before them, with the least
/// significant one first, give a size that the rest of the binary has room for.
/// The kernel then is that many bytes in front of them, and what is left without
/// it is what precedes it.
pub proof fn last_bytes_decide(binary: Seq<u8>)
    ensures
        binary.len() < 16 ==> !has_trailer(binary) && !has_kernel(binary),
        binary.len() >= 16 ==> {
            let n = binary.len() as int;
            let size = binary[n - 16] + 0x100 * binary[n - 15] + 0x1_0000 * binary[n - 14]
                + 0x100_0000 * binary[n - 13] + 0x1_0000_0000 * binary[n - 12] + 0x100_0000_0000
                * binary[n - 11] + 0x1_0000_0000_0000 * binary[n - 10] + 0x100_0000_0000_0000
                * binary[n - 9];
            let magic = {
                &&& binary[n - 8] == 0x56
                &&& binary[n - 7] == 0x4d
                &&& binary[n - 6] == 0x53
                &&& binary[n - 5] == 0x48
                &&& binary[n - 4] == 0x4b
                &&& binary[n - 3] == 0x52
                &&& binary[n - 2] == 0x4e
                &&& binary[n - 1] == 0x4c
            };
            &&& has_trailer(binary) <==> magic
            &&& has_kernel(binary) <==> magic && size + 16 <= n
            &&& magic && size + 16 <= n ==> {
                &&& kernel_of(binary) == binary.subrange(n - 16 - size, n - 16)
                &&& stripped(binary) == binary.take(n - 16 - size)
            }
        },
        !has_kernel(binary) ==> stripped(binary) == binary,
{
    if binary.len() >= 16 {
        let n = binary.len() as int;
        let field = binary.subrange(n - 16, n - 8);
        crate::bytes::eight_bytes_add_up(field);
        let end = binary.skip(n - 8);
        assert(MAGIC@ =~= seq![0x56u8, 0x4d, 0x53, 0x48, 0x4b, 0x52, 0x4e, 0x4c]);
        assert(end[0] == binary[n - 8] && end[1] == binary[n - 7] && end[2] == binary[n - 6]);
        assert(end[3] == binary[n - 5] && end[4] == binary[n - 4] && end[5] == binary[n - 3]);
        assert(end[6] == binary[n - 2] && end[7] == binary[n - 1]);
        if binary[n - 8] == 0x56 && binary[n - 7] == 0x4d && binary[n - 6] == 0x53 && binary[n - 5]
            == 0x48 && binary[n - 4] == 0x4b && binary[n - 3] == 0x52 && binary[n - 2] == 0x4e
            && binary[n - 1] == 0x4c {
            assert(end =~= MAGIC@);
        }
    }
}

/// An output path is written to as it is. Without one a copy is executed, for
/// the same kernel and with the path of the running binary as its output path.
pub proof fn plan_follows_output(plan: EmbedPlan, args: EmbedArgs, self_path: Seq<u8>)
    requires
        is_plan(plan, args, self_path),
    ensures
        args.output matches Some(path) ==> plan == EmbedPlan::Write(path),
        args.output is None ==> (plan matches EmbedPlan::Reexec(copied) && copied.kernel
            == args.kernel && copied.output is Some && copied.output->0@ == self_path),
{
}

/// The report counts whole KiB, and names the kernel and the output as they are.
pub proof fn report_names_everything(size: u64, kernel: Seq<char>, output: Seq<char>)
    ensures
        embed_report(size, kernel, output) == "embedded "@ + decimal((size as nat) / 1024)
            + " KiB kernel from `"@ + kernel + "` into `"@ + output + "`"@,
{
}

} // verus!
