//! Kernel formats, the host name, and temporary files.

use vmsh::temp::TempFile;
use vmsh::util::{FormatError, HostnameError, HOST_NAME_MAX};
use vmsh::{detect_kernel_format, hostname, KernelFormat};

/// A buffer that starts with `name`.
fn buffer(name: &[u8]) -> Vec<u8> {
    let mut buffer = vec![0; HOST_NAME_MAX];
    buffer[..name.len()].copy_from_slice(name);
    buffer
}

/// Check that we can retrieve the system's host name.
#[test]
fn hostname_retrieval() {
    let host_name = hostname(0, buffer(b"myhost")).unwrap();
    assert_ne!(host_name, "");
    assert_eq!(host_name, "myhost");
}

/// The name ends at the first NUL, and at the end of the buffer at the latest.
#[test]
fn hostname_is_terminated() {
    assert_eq!(HOST_NAME_MAX, 256);
    assert_eq!(hostname(0, b"abc\0def\0".to_vec()), Ok("abc".to_string()));
    assert_eq!(hostname(0, b"abcdef".to_vec()), Ok("abcde".to_string()));
    assert_eq!(hostname(0, b"x".to_vec()), Ok(String::new()));
}

/// Bytes that are not UTF-8 are replaced.
#[test]
fn hostname_is_lossy() {
    assert_eq!(hostname(0, buffer(b"a\xffb")), Ok("a\u{fffd}b".to_string()));
    assert_ne!(hostname(0, buffer(b"\xff")), Ok(String::new()));
    assert_eq!(hostname(0, buffer("h\u{f6}st".as_bytes())), Ok("h\u{f6}st".to_string()));
}

/// A failed call yields no name.
#[test]
fn hostname_failure() {
    assert_eq!(hostname(-1, buffer(b"myhost")), Err(HostnameError));
    assert_eq!(HostnameError.describe(), "failed to retrieve host name");
}

/// Every format is told by its magic bytes.
#[test]
fn kernel_formats() {
    assert_eq!(detect_kernel_format(b"\x7fELF\x02"), Ok(KernelFormat::Elf));
    assert_eq!(detect_kernel_format(b"\x1f\x8b\x08\0"), Ok(KernelFormat::Gz));
    assert_eq!(detect_kernel_format(b"\x1f\x8b\xff\xff"), Ok(KernelFormat::Gz));
    assert_eq!(detect_kernel_format(b"BZh9"), Ok(KernelFormat::Bz2));
    assert_eq!(detect_kernel_format(b"BZh\0"), Ok(KernelFormat::Bz2));
    assert_eq!(detect_kernel_format(b"\x28\xb5\x2f\xfd\x24"), Ok(KernelFormat::Zstd));
}

/// The formats have the numbers that `libkrun` gives them.
#[test]
fn kernel_format_codes() {
    assert_eq!(KernelFormat::Elf.code(), 1);
    assert_eq!(KernelFormat::Bz2.code(), 3);
    assert_eq!(KernelFormat::Gz.code(), 4);
    assert_eq!(KernelFormat::Zstd.code(), 5);
}

/// Four bytes are needed to tell the format.
#[test]
fn kernel_header_truncated() {
    assert_eq!(detect_kernel_format(b"\x1f\x8b\x08"), Err(FormatError::Truncated));
    assert_eq!(detect_kernel_format(b""), Err(FormatError::Truncated));
    assert_eq!(
        FormatError::Truncated.describe("/boot/x"),
        "failed to read kernel header from `/boot/x`"
    );
}

/// Unknown magic bytes are reported.
#[test]
fn kernel_format_unrecognized() {
    let error = detect_kernel_format(b"\x00MZ\xff\x01").unwrap_err();
    assert_eq!(error, FormatError::Unrecognized(0x00, 0x4d, 0x5a, 0xff));
    assert_eq!(
        error.describe("/boot/x"),
        "unrecognized kernel format (magic: [00, 4d, 5a, ff]) for `/boot/x`"
    );
    assert_eq!(
        detect_kernel_format(b"\x7fELG"),
        Err(FormatError::Unrecognized(0x7f, 0x45, 0x4c, 0x47))
    );
}

/// Temporary files are named after the process.
#[test]
fn temp_file_names() {
    assert_eq!(TempFile::Init.name(4321), "vmsh-init-4321");
    assert_eq!(TempFile::Copy.name(0), "vmsh-embed-0");
    assert_eq!(TempFile::Kernel.name(u32::MAX), "/tmp/vmsh-kernel-4294967295");
    assert_ne!(TempFile::Init.name(11), TempFile::Init.name(1));
}
