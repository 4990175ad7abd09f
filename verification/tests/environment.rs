//! Environment variables on their way from the host to the guest.

use vmsh::environment::{build_env_content, load_env_vars};

fn var(key: &str, value: &str) -> (Vec<u8>, Vec<u8>) {
    (key.as_bytes().to_vec(), value.as_bytes().to_vec())
}

fn host_env() -> Vec<(Vec<u8>, Vec<u8>)> {
    vec![
        var("PATH", "/usr/bin"),
        var("USER", "alice"),
        var("HOSTNAME", "myhost"),
        var("HOME", "/home/alice"),
        var("VMSH_REDIRECT", "3"),
        var("VMSH_KERNEL", "/boot/vmlinuz"),
        var("KRUN_LOG_LEVEL", "debug"),
        var("EDITOR", "vim"),
    ]
}

/// Test that without environment variable related flags set,
/// [`build_env_content`] produces an empty env var file.
#[test]
fn no_flags_empty_output() {
    let all_envs = false;
    let content = build_env_content(&[], all_envs, Vec::<(Vec<u8>, Vec<u8>)>::new());
    assert!(content.is_empty());
}

/// Check that `all_envs` exports non-blocked host vars.
#[test]
fn all_envs_exports_host() {
    let all_envs = true;
    let content = build_env_content(&[], all_envs, host_env());
    let text = String::from_utf8(content).unwrap();
    assert!(text.contains("PATH=/usr/bin\n"));
    assert!(text.contains("USER=alice\n"));
    assert!(text.contains("EDITOR=vim\n"));
}

/// Verify that `all_envs` excludes `VMSH_*` and `KRUN_*` prefixed
/// variables.
#[test]
fn all_envs_skips_blocked() {
    let all_envs = true;
    let content = build_env_content(&[], all_envs, host_env());
    let text = String::from_utf8(content).unwrap();
    assert!(text.contains("HOSTNAME=myhost\n"));
    assert!(text.contains("HOME=/home/alice\n"));
    assert!(!text.contains("VMSH_REDIRECT="));
    assert!(!text.contains("VMSH_KERNEL="));
    assert!(!text.contains("KRUN_LOG_LEVEL="));
}

/// Test that `--env=KEY` resolves its value from the host
/// environment.
#[test]
fn env_key_resolves_from_host() {
    let all_envs = false;
    let content = build_env_content(&["PATH".to_string()], all_envs, host_env());
    let text = String::from_utf8(content).unwrap();
    assert_eq!(text, "PATH=/usr/bin\n");
}

/// Check that `--env=KEY=VALUE` uses the provided value.
#[test]
fn env_key_value_explicit() {
    let all_envs = false;
    let content = build_env_content(
        &["FOO=bar".to_string()],
        all_envs,
        Vec::<(Vec<u8>, Vec<u8>)>::new(),
    );
    let text = String::from_utf8(content).unwrap();
    assert_eq!(text, "FOO=bar\n");
}

/// Verify that a bare key missing from the host env is silently
/// skipped.
#[test]
fn env_key_missing_skipped() {
    let all_envs = false;
    let content = build_env_content(&["NONEXISTENT".to_string()], all_envs, host_env());
    assert!(content.is_empty());
}

/// Test that `--env=KEY=VALUE` overrides the same key from
/// `all_envs`.
#[test]
fn env_overrides_all_envs() {
    let all_envs = true;
    let content = build_env_content(&["PATH=custom".to_string()], all_envs, host_env());
    let text = String::from_utf8(content).unwrap();
    assert!(text.contains("PATH=custom\n"));
    assert!(!text.contains("PATH=/usr/bin\n"));
}

/// Check that a key in both `all_envs` and `--env` produces only one
/// entry.
#[test]
fn no_duplicates() {
    let all_envs = true;
    let content = build_env_content(&["PATH".to_string()], all_envs, host_env());
    let text = String::from_utf8(content).unwrap();
    let count = text.matches("PATH=").count();
    assert_eq!(count, 1);
}

/// Variables come in ascending order of their names.
#[test]
fn payload_is_sorted() {
    let content = build_env_content(&["ZED=1".to_string(), "A=2".to_string()], true, host_env());
    assert_eq!(
        content,
        b"A=2\nEDITOR=vim\nHOME=/home/alice\nHOSTNAME=myhost\nPATH=/usr/bin\nUSER=alice\nZED=1\n"
    );
}

/// A reserved variable can be asked for by name.
#[test]
fn reserved_by_name() {
    let flags = ["VMSH_KERNEL".to_string(), "KRUN_X=y".to_string()];
    let content = build_env_content(&flags, true, host_env());
    let text = String::from_utf8(content).unwrap();
    assert!(text.contains("VMSH_KERNEL=/boot/vmlinuz\n"));
    assert!(text.contains("KRUN_X=y\n"));
    assert!(!text.contains("VMSH_REDIRECT="));
}

/// A reserved name is told by its first bytes alone.
#[test]
fn reserved_prefixes() {
    let host = vec![
        (b"VMSH_\xff".to_vec(), b"1".to_vec()),
        (b"KRUN_".to_vec(), b"2".to_vec()),
        (b"VMSH".to_vec(), b"3".to_vec()),
        (b"XVMSH_".to_vec(), b"4".to_vec()),
        (b"\xfe".to_vec(), b"\xfd".to_vec()),
    ];
    let content = build_env_content(&[], true, host);
    assert_eq!(content, b"VMSH=3\nXVMSH_=4\n\xfe=\xfd\n");
}

/// The last flag about a variable counts, and so does the last value that the
/// host lists.
#[test]
fn last_one_wins() {
    let flags = ["A=1".to_string(), "A=2".to_string()];
    assert_eq!(build_env_content(&flags, false, Vec::new()), b"A=2\n");

    let host = vec![var("A", "old"), var("A", "new")];
    assert_eq!(build_env_content(&["A".to_string()], false, host), b"A=new\n");

    let host = vec![var("A", "host")];
    let flags = ["A=1".to_string(), "A".to_string()];
    assert_eq!(build_env_content(&flags, false, host), b"A=host\n");

    let flags = ["A=1".to_string(), "A".to_string()];
    assert_eq!(build_env_content(&flags, false, Vec::new()), b"A=1\n");
}

/// A value may contain `=`, and either side may be empty.
#[test]
fn split_at_first_equals() {
    let flags = ["A=b=c".to_string(), "B=".to_string(), "=x".to_string()];
    assert_eq!(build_env_content(&flags, false, Vec::new()), b"=x\nA=b=c\nB=\n");
}

/// What is written is read back.
#[test]
fn guest_reads_back() {
    let content = build_env_content(&["X=a=b".to_string()], true, host_env());
    assert_eq!(
        load_env_vars(&content, false),
        vec![
            var("EDITOR", "vim"),
            var("HOME", "/home/alice"),
            var("HOSTNAME", "myhost"),
            var("PATH", "/usr/bin"),
            var("USER", "alice"),
            var("X", "a=b"),
        ]
    );
}

/// Empty lines and lines without `=` are skipped.
#[test]
fn load_skips_odd_lines() {
    assert_eq!(load_env_vars(b"", false), vec![]);
    assert_eq!(load_env_vars(b"\n\nA=1\nnothing\nB=2", false), vec![var("A", "1"), var("B", "2")]);
}

/// Lines may end in a carriage return and a line feed.
#[test]
fn load_drops_carriage_return() {
    assert_eq!(load_env_vars(b"A=1\r\nB=2\r", false), vec![var("A", "1"), var("B", "2\r")]);
}

/// Variables that are not UTF-8 are loaded like all others.
#[test]
fn load_invalid_utf8() {
    assert_eq!(
        load_env_vars(b"A=1\nB=\xff\n\xfe=2\nC=3\n", false),
        vec![
            var("A", "1"),
            (b"B".to_vec(), b"\xff".to_vec()),
            (b"\xfe".to_vec(), b"2".to_vec()),
            var("C", "3"),
        ]
    );
    let host = vec![(b"A".to_vec(), b"\xff".to_vec()), var("B", "2")];
    let content = build_env_content(&[], true, host.clone());
    assert_eq!(load_env_vars(&content, false), host);
}

/// A line that could not be read to its end is ignored.
#[test]
fn load_interrupted() {
    assert_eq!(load_env_vars(b"A=1\nB=2", true), vec![var("A", "1")]);
    assert_eq!(load_env_vars(b"A=1\nB=2\n", true), vec![var("A", "1"), var("B", "2")]);
    assert_eq!(load_env_vars(b"A=1", true), vec![]);
}

/// A line feed in a value does not survive the transport.
#[test]
fn line_feed_is_lost() {
    let host = vec![var("A", "1\n2")];
    let content = build_env_content(&[], true, host);
    assert_eq!(load_env_vars(&content, false), vec![var("A", "1")]);
}
