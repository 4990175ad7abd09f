//! Embedding and extracting kernel images.

use vmsh::args::EmbedArgs;
use vmsh::embed::{
    embed_kernel, extract_embedded_kernel, plan_embed, report_embedding, strip_trailer,
    EmbedError, EmbedPlan, ExtractError, CLEANUP_ENV, MAGIC, TRAILER_SIZE,
};

/// Build a blob with a valid `VMSHKRNL` trailer.
fn blob_with_trailer(base: &[u8], kernel: &[u8]) -> Vec<u8> {
    let mut buf = Vec::from(base);
    let size = kernel.len() as u64;
    buf.extend_from_slice(kernel);
    buf.extend_from_slice(&size.to_le_bytes());
    buf.extend_from_slice(&MAGIC);
    buf
}

/// Test that a blob with a valid trailer is truncated to the original
/// content.
#[test]
fn strip_with_trailer() {
    let base = vec![0xAA; 32];
    let kernel = vec![0xBB; 64];
    let mut data = blob_with_trailer(&base, &kernel);
    assert_eq!(data.len(), 32 + 64 + 16);

    strip_trailer(&mut data);
    assert_eq!(data, base);
}

/// Check that a blob without a trailer is left unchanged.
#[test]
fn strip_no_trailer() {
    let original = vec![1, 2, 3, 4, 5];
    let mut data = original.clone();
    strip_trailer(&mut data);
    assert_eq!(data, original);
}

/// Verify that a blob shorter than the trailer size is left unchanged.
#[test]
fn strip_too_small() {
    let mut data = vec![1, 2, 3];
    let original = data.clone();
    strip_trailer(&mut data);
    assert_eq!(data, original);
}

/// Make sure that stripping twice produces the same result as stripping
/// once.
#[test]
fn strip_idempotent() {
    let base = vec![0xCC; 16];
    let kernel = vec![0xDD; 8];
    let mut data = blob_with_trailer(&base, &kernel);

    strip_trailer(&mut data);
    let after_first = data.clone();
    strip_trailer(&mut data);
    assert_eq!(data, after_first);
}

/// Check that a trailer whose size exceeds the available space is not
/// stripped.
#[test]
fn strip_corrupt_size() {
    // A trailer that claims a kernel larger than the remaining blob.
    let mut data = vec![0xEE; 4];
    // "kernel" (2 bytes, but size says 9999)
    data.extend_from_slice(&[0xFF; 2]);
    data.extend_from_slice(&9999u64.to_le_bytes());
    data.extend_from_slice(&MAGIC);
    let original = data.clone();

    strip_trailer(&mut data);
    assert_eq!(data, original);
}

/// The magic and the size of the trailer are part of the file format.
#[test]
fn trailer_layout() {
    assert_eq!(&MAGIC, b"VMSHKRNL");
    assert_eq!(TRAILER_SIZE, 16);

    let out = embed_kernel(vec![1, 2], &[3, 4, 5]).unwrap();
    assert_eq!(out, blob_with_trailer(&[1, 2], &[3, 4, 5]));
    assert_eq!(out, b"\x01\x02\x03\x04\x05\x03\0\0\0\0\0\0\0VMSHKRNL");
}

/// Sizes above a byte are stored in little endian order.
#[test]
fn size_is_little_endian() {
    let kernel = vec![7u8; 0x0102_03];
    let out = embed_kernel(Vec::new(), &kernel).unwrap();
    let at = out.len() - 16;
    assert_eq!(&out[at..at + 8], &[0x03, 0x02, 0x01, 0, 0, 0, 0, 0]);
    assert_eq!(extract_embedded_kernel(&out), Ok(kernel));
}

/// An embedded kernel is found again.
#[test]
fn embed_then_extract() {
    let base = b"\x7fELF some program".to_vec();
    let kernel = b"\x1f\x8b kernel".to_vec();
    let fat = embed_kernel(base.clone(), &kernel).unwrap();
    assert_eq!(extract_embedded_kernel(&fat), Ok(kernel));

    let mut slim = fat;
    strip_trailer(&mut slim);
    assert_eq!(slim, base);
}

/// Embedding into a binary that carries a kernel already replaces it.
#[test]
fn embed_twice_replaces() {
    let base = vec![0xAA; 40];
    let once = embed_kernel(base.clone(), &[1, 2, 3]).unwrap();
    let twice = embed_kernel(once, &[4, 5]).unwrap();
    assert_eq!(twice, embed_kernel(base, &[4, 5]).unwrap());
    assert_eq!(extract_embedded_kernel(&twice), Ok(vec![4, 5]));
}

/// An empty kernel is refused.
#[test]
fn embed_empty_kernel() {
    assert_eq!(embed_kernel(vec![1, 2, 3], &[]), Err(EmbedError::EmptyKernel));
    assert_eq!(EmbedError::EmptyKernel.describe(), "kernel file is empty");
}

/// A binary shorter than a trailer carries nothing.
#[test]
fn extract_too_small() {
    assert_eq!(extract_embedded_kernel(&[0; 15]), Err(ExtractError::TooSmall));
    assert_eq!(extract_embedded_kernel(&[]), Err(ExtractError::TooSmall));
    assert_eq!(
        ExtractError::TooSmall.describe(),
        "binary too small to contain an embedded kernel"
    );
}

/// A binary that does not end in the magic carries nothing.
#[test]
fn extract_missing_trailer() {
    assert_eq!(extract_embedded_kernel(&[0; 16]), Err(ExtractError::MissingTrailer));
    let mut blob = blob_with_trailer(&[1], &[2]);
    blob.push(0);
    assert_eq!(extract_embedded_kernel(&blob), Err(ExtractError::MissingTrailer));
    assert_eq!(
        ExtractError::MissingTrailer.describe(),
        "no embedded kernel found (missing VMSHKRNL trailer)"
    );
}

/// A trailer that claims too much is told apart.
#[test]
fn extract_corrupt_size() {
    let mut data = vec![0xEE; 6];
    data.extend_from_slice(&7u64.to_le_bytes());
    data.extend_from_slice(&MAGIC);
    assert_eq!(extract_embedded_kernel(&data), Err(ExtractError::CorruptSize));
    data[6] = 6;
    assert_eq!(extract_embedded_kernel(&data), Ok(vec![0xEE; 6]));
    data[13] = 0xff;
    assert_eq!(extract_embedded_kernel(&data), Err(ExtractError::CorruptSize));
    assert_eq!(ExtractError::CorruptSize.describe(), "failed to seek to kernel data");
}

/// What remains after stripping may carry a kernel itself.
#[test]
fn strip_nested() {
    let inner = blob_with_trailer(&[1, 2, 3], &[4]);
    let outer = blob_with_trailer(&inner, &[5, 6]);
    let mut data = outer;
    strip_trailer(&mut data);
    assert_eq!(data, inner);
    strip_trailer(&mut data);
    assert_eq!(data, vec![1, 2, 3]);
}

/// Without an output path a copy is executed that overwrites the original.
#[test]
fn plan_overwrites_self() {
    let args = EmbedArgs { kernel: b"/boot/vmlinux".to_vec(), output: None };
    let copied = match plan_embed(args, b"/usr/bin/vmsh") {
        EmbedPlan::Reexec(copied) => copied,
        EmbedPlan::Write(_) => panic!("must not write to a running executable"),
    };
    assert_eq!(copied.kernel, b"/boot/vmlinux");
    assert_eq!(
        copied.arguments(),
        vec![
            b"embed".to_vec(),
            b"/boot/vmlinux".to_vec(),
            b"-o".to_vec(),
            b"/usr/bin/vmsh".to_vec(),
        ]
    );
    match plan_embed(copied, b"/tmp/vmsh-embed-1") {
        EmbedPlan::Write(path) => assert_eq!(path, b"/usr/bin/vmsh"),
        EmbedPlan::Reexec(_) => panic!("must not copy twice"),
    }
    assert_eq!(CLEANUP_ENV, "VMSH_EMBED_CLEANUP");
}

/// An output path is written to directly.
#[test]
fn plan_writes_output() {
    let args = EmbedArgs { kernel: b"k".to_vec(), output: Some(b"out".to_vec()) };
    match plan_embed(args, b"/usr/bin/vmsh") {
        EmbedPlan::Write(path) => assert_eq!(path, b"out"),
        EmbedPlan::Reexec(_) => panic!("nothing to copy"),
    }
}

/// The report rounds the size down to KiB.
#[test]
fn report_in_kib() {
    assert_eq!(
        report_embedding(10 * 1024 + 1023, "/boot/vmlinux", "vmsh-fat"),
        "embedded 10 KiB kernel from `/boot/vmlinux` into `vmsh-fat`"
    );
    assert_eq!(report_embedding(1, "a", "b"), "embedded 0 KiB kernel from `a` into `b`");
}
