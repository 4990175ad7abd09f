//! Kernel image formats and the host name.

use vstd::prelude::*;
use vstd::string::*;
use vstd::utf8::{decode_utf8, valid_utf8};

use crate::bytes::{find_byte, first_index, lemma_first_index_at};
use crate::sys::{text_from_utf8_lossy, utf8_lossy};
use crate::text::{hex_byte, push_hex_byte};

verus! {

/// Kernel image format.
#[derive(Clone, Copy, Debug, PartialEq, Eq, Structural)]
pub enum KernelFormat {
    /// Uncompressed ELF (`KRUN_KERNEL_FORMAT_ELF`).
    Elf,
    /// bzip2-compressed ELF (`KRUN_KERNEL_FORMAT_IMAGE_BZ2`).
    Bz2,
    /// gzip-compressed ELF (`KRUN_KERNEL_FORMAT_IMAGE_GZ`).
    Gz,
    /// zstd-compressed ELF (`KRUN_KERNEL_FORMAT_IMAGE_ZSTD`).
    Zstd,
}

impl KernelFormat {
    /// The `libkrun` C constant for the format.
    pub open spec fn spec_code(self) -> u32 {
        match self {
            KernelFormat::Elf => 1,
            KernelFormat::Bz2 => 3,
            KernelFormat::Gz => 4,
            KernelFormat::Zstd => 5,
        }
    }

    /// Retrieve the `libkrun` C constant for the format.
    pub fn code(self) -> (r: u32)
        ensures
            r == self.spec_code(),
    {
        match self {
            KernelFormat::Elf => 1,
            KernelFormat::Bz2 => 3,
            KernelFormat::Gz => 4,
            KernelFormat::Zstd => 5,
        }
    }
}

/// The format of an image that starts with `magic`, if it is a known one.
pub open spec fn format_of(magic: Seq<u8>) -> Option<KernelFormat>
    recommends
        magic.len() == 4,
{
    if magic[0] == 0x7f && magic[1] == 0x45 && magic[2] == 0x4c && magic[3] == 0x46 {
        Some(KernelFormat::Elf)
    } else if magic[0] == 0x1f && magic[1] == 0x8b {
        Some(KernelFormat::Gz)
    } else if magic[0] == 0x42 && magic[1] == 0x5a && magic[2] == 0x68 {
        Some(KernelFormat::Bz2)
    } else if magic[0] == 0x28 && magic[1] == 0xb5 && magic[2] == 0x2f && magic[3] == 0xfd {
        Some(KernelFormat::Zstd)
    } else {
        None
    }
}

/// Why the format of a kernel image could not be detected.
#[derive(Clone, Copy, Debug, PartialEq, Eq, Structural)]
pub enum FormatError {
    /// The image is shorter than the four bytes that tell its format.
    Truncated,
    /// The image starts with these four bytes, which belong to no known
    /// format.
    Unrecognized(u8, u8, u8, u8),
}

impl FormatError {
    /// The text of the error for the image at `path`.
    pub open spec fn text(self, path: Seq<char>) -> Seq<char> {
        match self {
            FormatError::Truncated => "failed to read kernel header from `"@ + path + "`"@,
            FormatError::Unrecognized(a, b, c, d) => "unrecognized kernel format (magic: ["@
                + hex_byte(a) + ", "@ + hex_byte(b) + ", "@ + hex_byte(c) + ", "@ + hex_byte(d)
                + "]) for `"@ + path + "`"@,
        }
    }

    /// Describe the error for the image at `path`.
    pub fn describe(&self, path: &str) -> (r: String)
        ensures
            r@ == self.text(path@),
    {
        let mut out = String::new();
        match *self {
            FormatError::Truncated => {
                out.append("failed to read kernel header from `");
            },
            FormatError::Unrecognized(a, b, c, d) => {
                out.append("unrecognized kernel format (magic: [");
                push_hex_byte(&mut out, a);
                out.append(", ");
                push_hex_byte(&mut out, b);
                out.append(", ");
                push_hex_byte(&mut out, c);
                out.append(", ");
                push_hex_byte(&mut out, d);
                out.append("]) for `");
            },
        }
        out.append(path);
        out.append("`");
        assert(out@ =~= self.text(path@));
        out
    }
}

/// Detect the kernel format by the magic bytes at the start of an image.
pub fn detect_kernel_format(image: &[u8]) -> (r: Result<KernelFormat, FormatError>)
    ensures
        r == Err::<KernelFormat, FormatError>(FormatError::Truncated) <==> image@.len() < 4,
        image@.len() >= 4 ==> match format_of(image@.take(4)) {
            Some(format) => r == Ok::<KernelFormat, FormatError>(format),
            None => r == Err::<KernelFormat, FormatError>(
                FormatError::Unrecognized(image@[0], image@[1], image@[2], image@[3]),
            ),
        },
{
    if image.len() < 4 {
        return Err(FormatError::Truncated);
    }
    let (a, b, c, d) = (image[0], image[1], image[2], image[3]);
    if a == 0x7f && b == 0x45 && c == 0x4c && d == 0x46 {
        Ok(KernelFormat::Elf)
    } else if a == 0x1f && b == 0x8b {
        Ok(KernelFormat::Gz)
    } else if a == 0x42 && b == 0x5a && c == 0x68 {
        Ok(KernelFormat::Bz2)
    } else if a == 0x28 && b == 0xb5 && c == 0x2f && d == 0xfd {
        Ok(KernelFormat::Zstd)
    } else {
        Err(FormatError::Unrecognized(a, b, c, d))
    }
}

/// The `libkrun` constants tell the formats apart.
pub proof fn format_codes_differ(a: KernelFormat, b: KernelFormat)
    ensures
        a.spec_code() == b.spec_code() <==> a == b,
{
}

/// The size of the buffer for a host name. POSIX allows for names of up to 255
/// bytes; this leaves room for a NUL.
pub const HOST_NAME_MAX: usize = 256;

/// A non-zero status of the call that retrieves the host name.
#[derive(Clone, Copy, Debug, PartialEq, Eq, Structural)]
pub struct HostnameError;

impl HostnameError {
    /// Describe the error.
    pub fn describe(&self) -> (r: &'static str)
        ensures
            r@ == "failed to retrieve host name"@,
    {
        "failed to retrieve host name"
    }
}

/// The host name that a buffer holds: everything up to the first NUL, where
/// the last byte of the buffer counts as one.
pub open spec fn name_in_buffer(buffer: Seq<u8>) -> Seq<u8>
    recommends
        buffer.len() > 0,
{
    let terminated = buffer.update(buffer.len() - 1, 0);
    terminated.take(first_index(terminated, 0) as int)
}

/// Retrieve the system's host name from what `gethostname` reports: its
/// status and the buffer that it filled.
///
/// The name is always terminated at the end of the buffer. Some systems may
/// not do that when the host name exceeds the size of the buffer.
pub fn hostname(status: i32, buffer: Vec<u8>) -> (r: Result<String, HostnameError>)
    requires
        buffer@.len() > 0,
    ensures
        r is Err <==> status != 0,
        r matches Ok(name) ==> {
            &&& name@ == utf8_lossy(name_in_buffer(buffer@))
            &&& valid_utf8(name_in_buffer(buffer@)) ==> name@ == decode_utf8(
                name_in_buffer(buffer@),
            )
            &&& !name@.contains('\0')
            &&& name_in_buffer(buffer@).len() > 0 ==> name@.len() > 0
        },
{
    if status != 0 {
        return Err(HostnameError);
    }
    let mut terminated = buffer;
    let last: usize = terminated.len() - 1;
    terminated.set(last, 0);
    let end: usize = find_byte(terminated.as_slice(), 0);
    proof {
        lemma_first_index_at(terminated@, 0);
    }
    let name = vstd::slice::slice_subrange(terminated.as_slice(), 0, end);
    assert(name@ =~= name_in_buffer(buffer@));
    assert(!name@.contains(0)) by {
        if name@.contains(0) {
            let i = choose|i: int| 0 <= i < name@.len() && name@[i] == 0;
            assert(terminated@[i] == 0);
        }
    }
    Ok(text_from_utf8_lossy(name))
}

/// Which images are accepted, by their first four bytes: ELF by `7f 45 4c 46`,
/// gzip by `1f 8b`, bzip2 by `42 5a 68`, and zstd by `28 b5 2f fd`, whatever
/// follows. All others are not.
pub proof fn magic_bytes_decide(magic: Seq<u8>)
    requires
        magic.len() == 4,
    ensures
        format_of(magic) == Some(KernelFormat::Elf) <==> magic == seq![0x7fu8, 0x45, 0x4c, 0x46],
        format_of(magic) == Some(KernelFormat::Gz) <==> magic.take(2) == seq![0x1fu8, 0x8b],
        format_of(magic) == Some(KernelFormat::Bz2) <==> magic.take(3) == seq![0x42u8, 0x5a, 0x68],
        format_of(magic) == Some(KernelFormat::Zstd) <==> magic == seq![0x28u8, 0xb5, 0x2f, 0xfd],
{
    let (elf, gz) = (seq![0x7fu8, 0x45, 0x4c, 0x46], seq![0x1fu8, 0x8b]);
    let (bz2, zstd) = (seq![0x42u8, 0x5a, 0x68], seq![0x28u8, 0xb5, 0x2f, 0xfd]);
    assert(magic == elf <==> magic =~= elf);
    assert(magic == zstd <==> magic =~= zstd);
    assert(magic.take(2)[0] == magic[0] && magic.take(2)[1] == magic[1]);
    assert(magic.take(2) == gz <==> magic.take(2) =~= gz);
    assert(magic.take(3)[0] == magic[0] && magic.take(3)[1] == magic[1]);
    assert(magic.take(3)[2] == magic[2]);
    assert(magic.take(3) == bz2 <==> magic.take(3) =~= bz2);
}

/// The numbers that `libkrun` has for the formats.
pub proof fn format_codes()
    ensures
        KernelFormat::Elf.spec_code() == 1,
        KernelFormat::Bz2.spec_code() == 3,
        KernelFormat::Gz.spec_code() == 4,
        KernelFormat::Zstd.spec_code() == 5,
{
}

/// The host name in a buffer is what precedes the first NUL, whatever follows
/// it. A name that fills the buffer loses its last byte.
pub proof fn names_end_at_nul(name: Seq<u8>, rest: Seq<u8>, last: u8)
    requires
        forall|i: int| 0 <= i < name.len() ==> name[i] != 0,
    ensures
        name_in_buffer(name + seq![0u8] + rest) == name,
        name_in_buffer(name + seq![last]) == name,
{
    let buffer = name + seq![0u8] + rest;
    let terminated = buffer.update(buffer.len() - 1, 0);
    let n = name.len() as int;
    assert forall|j: int| 0 <= j < n implies terminated[j] != 0 by {
        assert(terminated[j] == name[j]);
    }
    crate::bytes::lemma_first_index(terminated, 0, n);
    assert(terminated.take(n) =~= name);
    let full = name + seq![last];
    let cut = full.update(full.len() - 1, 0);
    assert forall|j: int| 0 <= j < n implies cut[j] != 0 by {
        assert(cut[j] == name[j]);
    }
    crate::bytes::lemma_first_index(cut, 0, n);
    assert(cut.take(n) =~= name);
}

/// What is said of an image that is not accepted names the image and, if there
/// are four bytes, each of them as two hexadecimal digits.
pub proof fn format_errors_tell_why(path: Seq<char>, a: u8, b: u8, c: u8, d: u8)
    ensures
        FormatError::Truncated.text(path) == "failed to read kernel header from `"@ + path + "`"@,
        FormatError::Unrecognized(a, b, c, d).text(path)
            == "unrecognized kernel format (magic: ["@ + hex_byte(a) + ", "@ + hex_byte(b) + ", "@
            + hex_byte(c) + ", "@ + hex_byte(d) + "]) for `"@ + path + "`"@,
{
}

} // verus!
