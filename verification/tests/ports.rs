//! Virtio console ports.

use vmsh::ports::{
    find_virtio_port, match_port, search_env_port, setup_redirects, PortAction, PortEntry,
    PortEvent, PortSearch, RedirectAction, RedirectRun, Stream, ENV_PORT, ENV_PORT_ATTEMPTS,
    ENV_PORT_VAR, REDIRECT_ATTEMPTS,
};
use vmsh::vm::Redirected;

fn entry(file_name: &str, name: Option<&str>) -> PortEntry {
    PortEntry {
        file_name: file_name.as_bytes().to_vec(),
        name: name.map(|name| name.to_string()),
    }
}

/// Search for a port that is there the `at`-th time. Returns how often was
/// looked, how often was rested, and the outcome.
fn search(max_attempts: i32, at: i32) -> (i32, i32, Option<Vec<u8>>) {
    let mut state = PortSearch { max_attempts, attempt: 0 };
    let mut event = PortEvent::Begin;
    let (mut scans, mut rests) = (0, 0);
    loop {
        let (next, action) = find_virtio_port(state, event);
        state = next;
        event = match action {
            PortAction::Scan => {
                scans += 1;
                PortEvent::Scanned((scans > at).then_some(b"/dev/vport0p1".to_vec()))
            }
            PortAction::Rest => {
                rests += 1;
                PortEvent::Rested
            }
            PortAction::Found(path) => return (scans, rests, Some(path)),
            PortAction::GaveUp => return (scans, rests, None),
        };
    }
}

/// All actions taken to redirect streams, if `found` tells which ports are
/// there after a number of rests.
fn redirect(redirected: Redirected, found: fn(Stream, u32) -> bool) -> Vec<RedirectAction> {
    let mut run = RedirectRun::start(redirected);
    let mut rests = 0;
    let mut out = Vec::new();
    while run.action != RedirectAction::Finished {
        out.push(run.action);
        let there = match run.action {
            RedirectAction::Probe(stream) => found(stream, rests),
            RedirectAction::Rest => {
                rests += 1;
                false
            }
            _ => false,
        };
        run = setup_redirects(run, there);
    }
    out
}

/// A port is found by its name, without the line end.
#[test]
fn port_by_name() {
    let entries = [
        entry("vport0p0", None),
        entry("vport0p1", Some("krun-stdin\n")),
        entry("vport0p2", Some("krun-env\r\n\n")),
        entry("vport0p3", Some("krun-env")),
    ];
    assert_eq!(match_port(&entries, "krun-env"), Some(b"/dev/vport0p2".to_vec()));
    assert_eq!(match_port(&entries, "krun-stdin"), Some(b"/dev/vport0p1".to_vec()));
    assert_eq!(match_port(&entries, "krun-std"), None);
    assert_eq!(match_port(&entries, "krun-env\n"), None);
    assert_eq!(match_port(&[], "krun-env"), None);
}

/// Only line ends are ignored, and only at the end.
#[test]
fn port_name_is_exact() {
    let entries = [entry("a", Some(" x\n")), entry("b", Some("\nx")), entry("c", Some("x "))];
    assert_eq!(match_port(&entries, "x"), None);
    assert_eq!(match_port(&entries, "\nx"), Some(b"/dev/b".to_vec()));
    assert_eq!(match_port(&[entry("d", Some("\n\n"))], ""), Some(b"/dev/d".to_vec()));
}

/// The search ends when the port is there.
#[test]
fn search_until_found() {
    let path = Some(b"/dev/vport0p1".to_vec());
    assert_eq!(search(500, 0), (1, 0, path.clone()));
    assert_eq!(search(500, 3), (4, 3, path.clone()));
    assert_eq!(search(500, 499), (500, 499, path.clone()));
    assert_eq!(search(1, 0), (1, 0, path));
}

/// The search gives up after so many attempts.
#[test]
fn search_until_given_up() {
    assert_eq!(search(500, 500), (500, 499, None));
    assert_eq!(search(1, 1), (1, 0, None));
    assert_eq!(search(0, 0), (0, 0, None));
    assert_eq!(search(-5, 0), (0, 0, None));
}

/// The port for environment variables is looked for if it was announced.
#[test]
fn env_port() {
    assert_eq!(ENV_PORT, "krun-env");
    assert_eq!(ENV_PORT_VAR, "VMSH_ENV_PORT");
    assert_eq!(ENV_PORT_ATTEMPTS, 500);
    assert_eq!(search_env_port(false), None);
    assert_eq!(search_env_port(true), Some(PortSearch { max_attempts: 500, attempt: 0 }));
}

/// Each stream has its port and its file descriptor.
#[test]
fn streams() {
    assert_eq!((Stream::Stdin.port_name(), Stream::Stdin.fd()), ("krun-stdin", 0));
    assert_eq!((Stream::Stdout.port_name(), Stream::Stdout.fd()), ("krun-stdout", 1));
    assert_eq!((Stream::Stderr.port_name(), Stream::Stderr.fd()), ("krun-stderr", 2));
    assert_eq!(Stream::Stdin.variable(), "VMSH_STDIN");
    assert_eq!(Stream::Stdout.variable(), "VMSH_STDOUT");
    assert_eq!(Stream::Stderr.variable(), "VMSH_STDERR");
    assert!(Stream::Stdin.reads());
    assert!(!Stream::Stdout.reads());
    assert!(!Stream::Stderr.reads());
}

/// Without redirected streams there is nothing to do.
#[test]
fn nothing_to_redirect() {
    let none = Redirected { stdin: false, stdout: false, stderr: false };
    assert_eq!(redirect(none, |_, _| true), vec![]);
}

/// Ports that are there are attached in one go.
#[test]
fn redirect_all() {
    let all = Redirected { stdin: true, stdout: true, stderr: true };
    assert_eq!(
        redirect(all, |_, _| true),
        vec![
            RedirectAction::Probe(Stream::Stdin),
            RedirectAction::Attach(Stream::Stdin),
            RedirectAction::Probe(Stream::Stdout),
            RedirectAction::Attach(Stream::Stdout),
            RedirectAction::Probe(Stream::Stderr),
            RedirectAction::Attach(Stream::Stderr),
        ]
    );
}

/// A port that is late does not keep the others waiting.
#[test]
fn redirect_late_port() {
    let two = Redirected { stdin: true, stdout: false, stderr: true };
    assert_eq!(
        redirect(two, |stream, rests| stream == Stream::Stderr || rests == 2),
        vec![
            RedirectAction::Probe(Stream::Stdin),
            RedirectAction::Probe(Stream::Stderr),
            RedirectAction::Attach(Stream::Stderr),
            RedirectAction::Rest,
            RedirectAction::Probe(Stream::Stdin),
            RedirectAction::Rest,
            RedirectAction::Probe(Stream::Stdin),
            RedirectAction::Attach(Stream::Stdin),
        ]
    );
}

/// A port that appears in the last round is attached.
#[test]
fn redirect_last_round() {
    let all = Redirected { stdin: true, stdout: true, stderr: true };
    let taken = redirect(all, |stream, rests| stream == Stream::Stdin && rests == 499);
    assert!(taken.contains(&RedirectAction::Attach(Stream::Stdin)));
    assert!(!taken.contains(&RedirectAction::Attach(Stream::Stdout)));
    assert!(!taken.contains(&RedirectAction::Attach(Stream::Stderr)));
}

/// Polling ends even if the ports never appear.
#[test]
fn redirect_gives_up() {
    assert_eq!(REDIRECT_ATTEMPTS, 500);
    let all = Redirected { stdin: true, stdout: true, stderr: true };
    let taken = redirect(all, |_, _| false);
    let rests = taken.iter().filter(|action| **action == RedirectAction::Rest).count();
    assert_eq!(rests, 499);
    assert_eq!(taken.len(), 500 * 3 + 499);

    let taken = redirect(all, |stream, _| stream == Stream::Stdout);
    let attached = RedirectAction::Attach(Stream::Stdout);
    assert_eq!(taken.iter().filter(|action| **action == attached).count(), 1);
}
