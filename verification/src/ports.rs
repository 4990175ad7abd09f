//! Looking for named virtio console ports in the guest, and attaching the
//! standard streams to them.

use vstd::prelude::*;
use vstd::utf8::{encode_utf8, encode_utf8_decode_utf8};

use crate::bytes::bytes_equal;
use crate::sys::{stderr_fileno, stdin_fileno, stdout_fileno};
use crate::vm::Redirected;

verus! {

/// The name of the port that delivers environment variables to the guest.
pub const ENV_PORT: &'static str = "krun-env";

/// The variable that tells the guest that there is such a port.
pub const ENV_PORT_VAR: &'static str = "VMSH_ENV_PORT";

/// How often to look for that port at most.
pub const ENV_PORT_ATTEMPTS: i32 = 500;

/// A port that the guest has, as listed below `/sys/class/virtio-ports`.
#[derive(Debug)]
pub struct PortEntry {
    /// The name of the port's directory, and of its device.
    pub file_name: Vec<u8>,
    /// What the file with the port's name holds; `None` if it could not be
    /// read.
    pub name: Option<String>,
}

/// `text` without the line feeds and carriage returns at its end.
pub open spec fn trimmed(text: Seq<u8>) -> Seq<u8>
    decreases text.len(),
{
    if text.len() > 0 && (text.last() == 0x0a || text.last() == 0x0d) {
        trimmed(text.drop_last())
    } else {
        text
    }
}

/// Whether a port has the name `target`.
pub open spec fn is_port(entry: PortEntry, target: Seq<char>) -> bool {
    entry.name matches Some(name) && trimmed(encode_utf8(name@)) == encode_utf8(target)
}

/// The device of a port: `/dev/<file name>`.
pub open spec fn device_path(entry: PortEntry) -> Seq<u8> {
    seq![0x2fu8, 0x64, 0x65, 0x76, 0x2f] + entry.file_name@
}

/// The device of the first port with the name `target`.
pub open spec fn port_device(entries: Seq<PortEntry>, target: Seq<char>) -> Option<Seq<u8>>
    decreases entries.len(),
{
    if entries.len() == 0 {
        None
    } else if is_port(entries[0], target) {
        Some(device_path(entries[0]))
    } else {
        port_device(entries.drop_first(), target)
    }
}

/// Check whether a file holds the name `target`.
fn name_matches(name: &str, target: &str) -> (r: bool)
    ensures
        r == (trimmed(encode_utf8(name@)) == encode_utf8(target@)),
{
    let bytes = name.as_bytes();
    let mut end: usize = bytes.len();
    assert(bytes@.take(end as int) =~= bytes@);
    while end > 0 && (bytes[end - 1] == 0x0a || bytes[end - 1] == 0x0d)
        invariant
            end <= bytes@.len(),
            trimmed(bytes@) == trimmed(bytes@.take(end as int)),
        decreases end,
    {
        assert(bytes@.take(end as int).drop_last() =~= bytes@.take(end - 1));
        end = end - 1;
    }
    let kept = vstd::slice::slice_subrange(bytes, 0, end);
    assert(kept@ =~= bytes@.take(end as int));
    bytes_equal(kept, target.as_bytes())
}

/// Find a named virtio console port among those that the guest has. It
/// returns the path of its device.
pub fn match_port(entries: &[PortEntry], target: &str) -> (r: Option<Vec<u8>>)
    ensures
        match port_device(entries@, target@) {
            Some(path) => r matches Some(found) && found@ == path,
            None => r is None,
        },
{
    let mut i: usize = 0;
    assert(entries@.skip(0) =~= entries@);
    while i < entries.len()
        invariant
            i <= entries@.len(),
            port_device(entries@, target@) == port_device(entries@.skip(i as int), target@),
        decreases entries@.len() - i,
    {
        assert(entries@.skip(i as int).drop_first() =~= entries@.skip(i + 1));
        if let Some(name) = &entries[i].name {
            if name_matches(name.as_str(), target) {
                let mut path: Vec<u8> = vec![0x2fu8, 0x64, 0x65, 0x76, 0x2f];
                path.extend_from_slice(entries[i].file_name.as_slice());
                assert(path@ =~= device_path(entries@[i as int]));
                return Some(path);
            }
        }
        i = i + 1;
    }
    None
}

/// The search for a port that may not be there yet.
#[derive(Clone, Copy, Debug, PartialEq, Eq, Structural)]
pub struct PortSearch {
    /// How often to look at most.
    pub max_attempts: i32,
    /// How often was looked in vain already.
    pub attempt: i32,
}

/// What to do next in the search for a port.
#[derive(Debug)]
pub enum PortAction {
    /// Look for the port.
    Scan,
    /// Wait for a millisecond.
    Rest,
    /// The port was found.
    Found(Vec<u8>),
    /// The port was not found.
    GaveUp,
}

/// What happened in the search for a port.
#[derive(Debug)]
pub enum PortEvent {
    /// The search begins.
    Begin,
    /// The time to wait is over.
    Rested,
    /// The ports were looked through: the device, if the port was there.
    Scanned(Option<Vec<u8>>),
}

/// The state of a search, and what to do next, after `event`.
pub open spec fn search_step(search: PortSearch, event: PortEvent) -> (PortSearch, PortAction) {
    match event {
        PortEvent::Begin => if search.attempt < search.max_attempts {
            (search, PortAction::Scan)
        } else {
            (search, PortAction::GaveUp)
        },
        PortEvent::Rested => (search, PortAction::Scan),
        PortEvent::Scanned(Some(path)) => (search, PortAction::Found(path)),
        PortEvent::Scanned(None) => if search.attempt + 1 < search.max_attempts {
            (
                PortSearch { attempt: (search.attempt + 1) as i32, ..search },
                PortAction::Rest,
            )
        } else {
            (search, PortAction::GaveUp)
        },
    }
}

/// Search for a virtio console port, step by step: decide what to do after
/// `event`.
///
/// The ports are looked through up to `max_attempts` times, 1 ms apart, until
/// the one searched for is there.
pub fn find_virtio_port(search: PortSearch, event: PortEvent) -> (r: (PortSearch, PortAction))
    ensures
        r == search_step(search, event),
{
    match event {
        PortEvent::Begin => {
            if search.attempt < search.max_attempts {
                (search, PortAction::Scan)
            } else {
                (search, PortAction::GaveUp)
            }
        },
        PortEvent::Rested => (search, PortAction::Scan),
        PortEvent::Scanned(found) => match found {
            Some(path) => (search, PortAction::Found(path)),
            None => {
                if search.attempt < search.max_attempts && search.attempt + 1
                    < search.max_attempts {
                    let next = PortSearch {
                        max_attempts: search.max_attempts,
                        attempt: search.attempt + 1,
                    };
                    (next, PortAction::Rest)
                } else {
                    (search, PortAction::GaveUp)
                }
            },
        },
    }
}

/// Start to search for [`ENV_PORT`], provided that it is announced: that
/// [`ENV_PORT_VAR`] is set. It is looked for [`ENV_PORT_ATTEMPTS`] times at most.
pub fn search_env_port(announced: bool) -> (r: Option<PortSearch>)
    ensures
        r == if announced {
            Some(PortSearch { max_attempts: ENV_PORT_ATTEMPTS, attempt: 0 })
        } else {
            None
        },
{
    if announced {
        Some(PortSearch { max_attempts: ENV_PORT_ATTEMPTS, attempt: 0 })
    } else {
        None
    }
}

/// How a search goes on that is about to look for the port, if doing so for
/// the `k`-th time, counted from zero, has the outcome `scans(k)`.
pub open spec fn search_from(
    search: PortSearch,
    scans: spec_fn(int) -> Option<Vec<u8>>,
) -> PortAction
    decreases search.max_attempts - search.attempt,
{
    let (waiting, action) = search_step(
        search,
        PortEvent::Scanned(scans(search.attempt as int)),
    );
    if action is Rest {
        let (rested, action) = search_step(waiting, PortEvent::Rested);
        if action is Scan {
            search_from(rested, scans)
        } else {
            action
        }
    } else {
        action
    }
}

/// How a search ends that looks up to `max_attempts` times.
pub open spec fn search_end(
    max_attempts: i32,
    scans: spec_fn(int) -> Option<Vec<u8>>,
) -> PortAction {
    let (search, action) = search_step(
        PortSearch { max_attempts, attempt: 0 },
        PortEvent::Begin,
    );
    if action is Scan {
        search_from(search, scans)
    } else {
        action
    }
}

/// A search that is under way finds the port the next time that it is there.
proof fn lemma_search_from(
    search: PortSearch,
    scans: spec_fn(int) -> Option<Vec<u8>>,
    at: int,
)
    requires
        search.attempt <= at <= search.max_attempts,
        search.attempt < search.max_attempts,
        forall|k: int| search.attempt <= k < at ==> #[trigger] scans(k) is None,
        at < search.max_attempts ==> scans(at) is Some,
    ensures
        search_from(search, scans) == if at < search.max_attempts {
            PortAction::Found(scans(at)->0)
        } else {
            PortAction::GaveUp
        },
    decreases search.max_attempts - search.attempt,
{
    let a = search.attempt as int;
    if a < at {
        assert(scans(a) is None);
        if a + 1 < search.max_attempts {
            let next = PortSearch { attempt: (a + 1) as i32, ..search };
            lemma_search_from(next, scans, at);
        }
    }
}

/// A search that looks up to `max_attempts` times finds the port the first
/// time that it is there, which is the `at`-th time.
pub proof fn search_finds_first(
    max_attempts: i32,
    scans: spec_fn(int) -> Option<Vec<u8>>,
    at: int,
)
    requires
        0 <= at < max_attempts,
        forall|k: int| 0 <= k < at ==> #[trigger] scans(k) is None,
        scans(at) is Some,
    ensures
        search_end(max_attempts, scans) == PortAction::Found(scans(at)->0),
{
    lemma_search_from(PortSearch { max_attempts, attempt: 0 }, scans, at);
}

/// A search gives up if the port is not there any of the times that it looks.
pub proof fn search_gives_up(max_attempts: i32, scans: spec_fn(int) -> Option<Vec<u8>>)
    requires
        forall|k: int| 0 <= k < max_attempts ==> #[trigger] scans(k) is None,
    ensures
        search_end(max_attempts, scans) == PortAction::GaveUp,
{
    if 0 < max_attempts {
        lemma_search_from(
            PortSearch { max_attempts, attempt: 0 },
            scans,
            max_attempts as int,
        );
    }
}

/// The standard streams.
#[derive(Clone, Copy, Debug, PartialEq, Eq, Structural)]
pub enum Stream {
    /// Standard input.
    Stdin,
    /// Standard output.
    Stdout,
    /// Standard error.
    Stderr,
}

impl Stream {
    /// The name of the port for the stream.
    pub open spec fn spec_port_name(self) -> Seq<char> {
        match self {
            Stream::Stdin => "krun-stdin"@,
            Stream::Stdout => "krun-stdout"@,
            Stream::Stderr => "krun-stderr"@,
        }
    }

    /// The variable that tells the guest that the stream is redirected.
    pub open spec fn spec_variable(self) -> Seq<char> {
        match self {
            Stream::Stdin => "VMSH_STDIN"@,
            Stream::Stdout => "VMSH_STDOUT"@,
            Stream::Stderr => "VMSH_STDERR"@,
        }
    }

    /// The file descriptor of the stream.
    pub open spec fn spec_fd(self) -> i32 {
        match self {
            Stream::Stdin => 0,
            Stream::Stdout => 1,
            Stream::Stderr => 2,
        }
    }

    /// The name of the port for the stream.
    pub fn port_name(self) -> (r: &'static str)
        ensures
            r@ == self.spec_port_name(),
    {
        match self {
            Stream::Stdin => "krun-stdin",
            Stream::Stdout => "krun-stdout",
            Stream::Stderr => "krun-stderr",
        }
    }

    /// The variable that tells the guest that the stream is redirected.
    pub fn variable(self) -> (r: &'static str)
        ensures
            r@ == self.spec_variable(),
    {
        match self {
            Stream::Stdin => "VMSH_STDIN",
            Stream::Stdout => "VMSH_STDOUT",
            Stream::Stderr => "VMSH_STDERR",
        }
    }

    /// The file descriptor of the stream.
    pub fn fd(self) -> (r: i32)
        ensures
            r == self.spec_fd(),
    {
        match self {
            Stream::Stdin => stdin_fileno(),
            Stream::Stdout => stdout_fileno(),
            Stream::Stderr => stderr_fileno(),
        }
    }

    /// Whether the port is opened for reading; else it is for writing.
    pub fn reads(self) -> (r: bool)
        ensures
            r == (self == Stream::Stdin),
    {
        match self {
            Stream::Stdin => true,
            Stream::Stdout | Stream::Stderr => false,
        }
    }
}

/// How often to look for the ports of the redirected streams at most.
pub const REDIRECT_ATTEMPTS: u32 = 500;

/// What to do next to redirect the streams.
#[derive(Clone, Copy, Debug, PartialEq, Eq, Structural)]
pub enum RedirectAction {
    /// Look once for the port of a stream.
    Probe(Stream),
    /// Open the port of a stream and make it the stream, as far as possible.
    Attach(Stream),
    /// Wait for a millisecond.
    Rest,
    /// Nothing is left to do.
    Finished,
}

/// The progress made in redirecting the streams.
#[derive(Clone, Copy, Debug, PartialEq, Eq, Structural)]
pub struct RedirectRun {
    /// The streams that are yet to be redirected.
    pub pending: Redirected,
    /// How often all pending streams were looked for in vain already.
    pub attempt: u32,
    /// What to do next.
    pub action: RedirectAction,
}

/// Whether a stream is yet to be redirected.
pub open spec fn is_pending(pending: Redirected, stream: Stream) -> bool {
    match stream {
        Stream::Stdin => pending.stdin,
        Stream::Stdout => pending.stdout,
        Stream::Stderr => pending.stderr,
    }
}

/// Whether any stream is yet to be redirected.
pub open spec fn any_pending(pending: Redirected) -> bool {
    pending.stdin || pending.stdout || pending.stderr
}

/// The first stream that is yet to be redirected, in the order input, output,
/// error.
pub open spec fn first_pending(pending: Redirected) -> Option<Stream> {
    if pending.stdin {
        Some(Stream::Stdin)
    } else if pending.stdout {
        Some(Stream::Stdout)
    } else if pending.stderr {
        Some(Stream::Stderr)
    } else {
        None
    }
}

/// The first stream after `stream` that is yet to be redirected.
pub open spec fn pending_after(pending: Redirected, stream: Stream) -> Option<Stream> {
    match stream {
        Stream::Stdin => first_pending(Redirected { stdin: false, ..pending }),
        Stream::Stdout => first_pending(Redirected { stdin: false, stdout: false, ..pending }),
        Stream::Stderr => None,
    }
}

/// `pending` without `stream`.
pub open spec fn without(pending: Redirected, stream: Stream) -> Redirected {
    match stream {
        Stream::Stdin => Redirected { stdin: false, ..pending },
        Stream::Stdout => Redirected { stdout: false, ..pending },
        Stream::Stderr => Redirected { stderr: false, ..pending },
    }
}

/// The state after `stream` was dealt with in a round over all streams. After
/// the last one, the next round begins with a rest, unless nothing is pending
/// or there were enough rounds.
pub open spec fn go_on(pending: Redirected, attempt: u32, stream: Stream) -> RedirectRun {
    match pending_after(pending, stream) {
        Some(next) => RedirectRun { pending, attempt, action: RedirectAction::Probe(next) },
        None => if any_pending(pending) && attempt + 1 < REDIRECT_ATTEMPTS {
            RedirectRun { pending, attempt: (attempt + 1) as u32, action: RedirectAction::Rest }
        } else {
            RedirectRun { pending, attempt, action: RedirectAction::Finished }
        },
    }
}

impl RedirectRun {
    /// The state before anything was done.
    pub open spec fn initial(redirected: Redirected) -> RedirectRun {
        RedirectRun {
            pending: redirected,
            attempt: 0,
            action: match first_pending(redirected) {
                Some(stream) => RedirectAction::Probe(stream),
                None => RedirectAction::Finished,
            },
        }
    }

    /// The state after what was to do next was done; `found` tells whether a
    /// port that was looked for is there.
    pub open spec fn after(self, found: bool) -> RedirectRun {
        match self.action {
            RedirectAction::Probe(stream) => if found {
                RedirectRun { action: RedirectAction::Attach(stream), ..self }
            } else {
                go_on(self.pending, self.attempt, stream)
            },
            RedirectAction::Attach(stream) => go_on(
                without(self.pending, stream),
                self.attempt,
                stream,
            ),
            RedirectAction::Rest => RedirectRun {
                action: match first_pending(self.pending) {
                    Some(stream) => RedirectAction::Probe(stream),
                    None => RedirectAction::Finished,
                },
                ..self
            },
            RedirectAction::Finished => self,
        }
    }

    /// What holds of the state at all times: only pending streams are dealt
    /// with, there is a rest only if it is needed, and there are not too many
    /// of them.
    pub open spec fn well_formed(self) -> bool {
        &&& self.attempt < REDIRECT_ATTEMPTS
        &&& match self.action {
            RedirectAction::Probe(stream) => is_pending(self.pending, stream),
            RedirectAction::Attach(stream) => is_pending(self.pending, stream),
            RedirectAction::Rest => any_pending(self.pending),
            RedirectAction::Finished => !any_pending(self.pending) || self.attempt + 1
                == REDIRECT_ATTEMPTS,
        }
    }

    /// An upper bound on how many steps are left.
    pub open spec fn rank(self) -> int {
        let rounds = 8 * (REDIRECT_ATTEMPTS - self.attempt);
        match self.action {
            RedirectAction::Finished => 0,
            RedirectAction::Rest => rounds + 7,
            RedirectAction::Probe(stream) => rounds + 6 - 2 * stream.spec_fd(),
            RedirectAction::Attach(stream) => rounds + 5 - 2 * stream.spec_fd(),
        }
    }
}

/// Find the first stream that is yet to be redirected.
fn find_pending(pending: Redirected) -> (r: Option<Stream>)
    ensures
        r == first_pending(pending),
{
    if pending.stdin {
        Some(Stream::Stdin)
    } else if pending.stdout {
        Some(Stream::Stdout)
    } else if pending.stderr {
        Some(Stream::Stderr)
    } else {
        None
    }
}

/// Proceed after `stream` was dealt with in a round over all streams.
fn proceed(pending: Redirected, attempt: u32, stream: Stream) -> (r: RedirectRun)
    requires
        attempt < REDIRECT_ATTEMPTS,
    ensures
        r == go_on(pending, attempt, stream),
{
    let later = match stream {
        Stream::Stdin => Redirected {
            stdin: false,
            stdout: pending.stdout,
            stderr: pending.stderr,
        },
        Stream::Stdout => Redirected { stdin: false, stdout: false, stderr: pending.stderr },
        Stream::Stderr => Redirected { stdin: false, stdout: false, stderr: false },
    };
    match find_pending(later) {
        Some(next) => RedirectRun { pending, attempt, action: RedirectAction::Probe(next) },
        None => {
            if (pending.stdin || pending.stdout || pending.stderr) && attempt + 1
                < REDIRECT_ATTEMPTS {
                RedirectRun { pending, attempt: attempt + 1, action: RedirectAction::Rest }
            } else {
                RedirectRun { pending, attempt, action: RedirectAction::Finished }
            }
        },
    }
}

impl RedirectRun {
    /// Start to redirect the streams that are to be redirected.
    pub fn start(redirected: Redirected) -> (r: RedirectRun)
        ensures
            r == RedirectRun::initial(redirected),
            r.well_formed(),
    {
        RedirectRun {
            pending: redirected,
            attempt: 0,
            action: match find_pending(redirected) {
                Some(stream) => RedirectAction::Probe(stream),
                None => RedirectAction::Finished,
            },
        }
    }
}

/// Redirect the standard streams to virtio console ports, step by step:
/// decide what to do after the last action was carried out. `found` tells
/// whether a port that was looked for is there.
///
/// All pending ports are polled concurrently, 1 ms apart, up to 500 ms. A
/// stream whose port was found is not tried again, even if the port could not
/// be opened.
pub fn setup_redirects(run: RedirectRun, found: bool) -> (r: RedirectRun)
    requires
        run.well_formed(),
    ensures
        r == run.after(found),
        r.well_formed(),
{
    let pending = run.pending;
    let attempt = run.attempt;
    match run.action {
        RedirectAction::Probe(stream) => {
            if found {
                RedirectRun { pending, attempt, action: RedirectAction::Attach(stream) }
            } else {
                proceed(pending, attempt, stream)
            }
        },
        RedirectAction::Attach(stream) => {
            let left = match stream {
                Stream::Stdin => Redirected {
                    stdin: false,
                    stdout: pending.stdout,
                    stderr: pending.stderr,
                },
                Stream::Stdout => Redirected {
                    stdin: pending.stdin,
                    stdout: false,
                    stderr: pending.stderr,
                },
                Stream::Stderr => Redirected {
                    stdin: pending.stdin,
                    stdout: pending.stdout,
                    stderr: false,
                },
            };
            proceed(left, attempt, stream)
        },
        RedirectAction::Rest => RedirectRun {
            pending,
            attempt,
            action: match find_pending(pending) {
                Some(stream) => RedirectAction::Probe(stream),
                None => RedirectAction::Finished,
            },
        },
        RedirectAction::Finished => run,
    }
}

/// Polling comes to an end, whatever is found: every step leaves fewer steps
/// to take.
pub proof fn redirecting_ends(run: RedirectRun, found: bool)
    requires
        run.well_formed(),
        run.action != RedirectAction::Finished,
    ensures
        run.after(found).well_formed(),
        0 <= run.after(found).rank() < run.rank(),
{
}

/// A stream is attached at most once, and only if its redirection was asked
/// for: a stream that is not pending never becomes pending again, and only
/// attaching a stream, which ends its being pending, changes what is pending.
pub proof fn streams_are_attached_once(run: RedirectRun, found: bool, stream: Stream)
    requires
        run.well_formed(),
    ensures
        is_pending(run.after(found).pending, stream) <==> is_pending(run.pending, stream)
            && run.action != RedirectAction::Attach(stream),
        run.after(found).action == RedirectAction::Attach(stream) ==> run.action
            == RedirectAction::Probe(stream) && found,
{
}

/// Resting is what separates two rounds: each rest counts as one attempt, and
/// nothing else does. As there are fewer attempts than
/// [`REDIRECT_ATTEMPTS`], so are there fewer rests.
pub proof fn rests_are_counted(run: RedirectRun, found: bool)
    requires
        run.well_formed(),
        run.action != RedirectAction::Finished,
    ensures
        run.after(found).attempt == run.attempt + if run.after(found).action
            == RedirectAction::Rest {
            1int
        } else {
            0
        },
        run.after(found).attempt < REDIRECT_ATTEMPTS,
{
}

/// Whether a port that is looked for is there, if `there(stream, k)` tells
/// whether the port of `stream` is there in round `k`, counted from zero.
pub open spec fn answer(run: RedirectRun, there: spec_fn(Stream, int) -> bool) -> bool {
    run.action matches RedirectAction::Probe(stream) && there(stream, run.attempt as int)
}

/// The streams that are attached from `run` on, in order.
pub open spec fn attached(run: RedirectRun, there: spec_fn(Stream, int) -> bool) -> Seq<Stream>
    decreases run.rank(),
{
    if run.well_formed() && run.action != RedirectAction::Finished {
        proof {
            redirecting_ends(run, answer(run, there));
        }
        let rest = attached(run.after(answer(run, there)), there);
        match run.action {
            RedirectAction::Attach(stream) => seq![stream] + rest,
            _ => rest,
        }
    } else {
        Seq::empty()
    }
}

/// The state in which redirecting ends that has come as far as `run`.
pub open spec fn redirect_end(run: RedirectRun, there: spec_fn(Stream, int) -> bool) -> RedirectRun
    decreases run.rank(),
{
    if run.well_formed() && run.action != RedirectAction::Finished {
        proof {
            redirecting_ends(run, answer(run, there));
        }
        redirect_end(run.after(answer(run, there)), there)
    } else {
        run
    }
}

/// Whether the port of `stream` is there in round `from` or in a later one.
pub open spec fn appears(there: spec_fn(Stream, int) -> bool, stream: Stream, from: int) -> bool {
    exists|k: int| from <= k < REDIRECT_ATTEMPTS && #[trigger] there(stream, k)
}

/// The round in which a pending stream is looked for next.
spec fn next_round(run: RedirectRun, stream: Stream) -> int {
    match run.action {
        RedirectAction::Probe(current) => if stream.spec_fd() >= current.spec_fd() {
            run.attempt as int
        } else {
            run.attempt + 1
        },
        RedirectAction::Attach(current) => if stream.spec_fd() > current.spec_fd() {
            run.attempt as int
        } else {
            run.attempt + 1
        },
        RedirectAction::Rest => run.attempt as int,
        RedirectAction::Finished => REDIRECT_ATTEMPTS as int,
    }
}

/// A round is looked at, or a later one is.
proof fn lemma_appears(there: spec_fn(Stream, int) -> bool, stream: Stream, from: int)
    requires
        from < REDIRECT_ATTEMPTS,
    ensures
        appears(there, stream, from) <==> there(stream, from) || appears(there, stream, from + 1),
{
    if appears(there, stream, from) && !there(stream, from) {
        let k = choose|k: int| from <= k < REDIRECT_ATTEMPTS && #[trigger] there(stream, k);
        assert(from + 1 <= k);
    }
}

/// From any state on, a pending stream is attached just if its port is there in
/// a round that is still to come; it then is no longer pending in the end.
proof fn lemma_attached(run: RedirectRun, there: spec_fn(Stream, int) -> bool, stream: Stream)
    requires
        run.well_formed(),
    ensures
        attached(run, there).contains(stream) <==> is_pending(run.pending, stream) && (run.action
            == RedirectAction::Attach(stream) || appears(there, stream, next_round(run, stream))),
        attached(run, there).no_duplicates(),
        redirect_end(run, there).action == RedirectAction::Finished,
        is_pending(redirect_end(run, there).pending, stream) <==> is_pending(run.pending, stream)
            && !attached(run, there).contains(stream),
    decreases run.rank(),
{
    if run.action == RedirectAction::Finished {
        assert(!appears(there, stream, REDIRECT_ATTEMPTS as int));
    } else {
        let next = run.after(answer(run, there));
        redirecting_ends(run, answer(run, there));
        lemma_attached(next, there, stream);
        lemma_appears(there, stream, run.attempt as int);
        let rest = attached(next, there);
        if let RedirectAction::Attach(current) = run.action {
            lemma_attached(next, there, current);
            let all = seq![current] + rest;
            assert(!rest.contains(current));
            assert(all.no_duplicates()) by {
                assert forall|i: int, j: int| 0 <= i < all.len() && 0 <= j < all.len() && i
                    != j implies all[i] != all[j] by {
                    if i == 0 {
                        assert(rest.contains(rest[j - 1]));
                    } else if j == 0 {
                        assert(rest.contains(rest[i - 1]));
                    } else {
                        assert(rest[i - 1] != rest[j - 1]);
                    }
                }
            }
            assert(all.contains(stream) <==> stream == current || rest.contains(stream)) by {
                assert(all[0] == current);
                if rest.contains(stream) {
                    let i = choose|i: int| 0 <= i < rest.len() && rest[i] == stream;
                    assert(all[i + 1] == stream);
                }
            }
            assert(attached(run, there) == all);
        }
        if is_pending(next.pending, stream) {
            assert(next_round(next, stream) == next_round(run, stream) || (next_round(next, stream)
                == next_round(run, stream) + 1 && run.action == RedirectAction::Probe(stream)));
        }
    }
}

/// A stream is attached just if its redirection was asked for and its port is
/// there in one of the rounds, whatever becomes of the other streams. It is
/// attached once. All other streams stay as they were, and redirecting ends
/// with just those pending that were asked for in vain.
pub proof fn streams_with_ports_are_attached(
    redirected: Redirected,
    there: spec_fn(Stream, int) -> bool,
    stream: Stream,
)
    ensures
        attached(RedirectRun::initial(redirected), there).contains(stream) <==> is_pending(
            redirected,
            stream,
        ) && appears(there, stream, 0),
        attached(RedirectRun::initial(redirected), there).no_duplicates(),
        redirect_end(RedirectRun::initial(redirected), there).action == RedirectAction::Finished,
        is_pending(
            redirect_end(RedirectRun::initial(redirected), there).pending,
            stream,
        ) <==> is_pending(redirected, stream) && !appears(there, stream, 0),
{
    lemma_attached(RedirectRun::initial(redirected), there, stream);
}

/// What is left of a text without the line ends at its end, by its bytes.
proof fn lemma_trimmed(text: Seq<u8>, kept: Seq<u8>)
    ensures
        trimmed(text) == kept <==> {
            &&& kept.is_prefix_of(text)
            &&& forall|i: int|
                kept.len() <= i < text.len() ==> #[trigger] text[i] == 0x0a || text[i] == 0x0d
            &&& kept.len() == 0 || (kept.last() != 0x0a && kept.last() != 0x0d)
        },
    decreases text.len(),
{
    if text.len() > 0 && (text.last() == 0x0a || text.last() == 0x0d) {
        let shorter = text.drop_last();
        lemma_trimmed(shorter, kept);
        if kept.is_prefix_of(shorter) {
            assert(text.subrange(0, kept.len() as int) =~= shorter.subrange(0, kept.len() as int));
            assert(kept =~= text.subrange(0, kept.len() as int));
        }
        if kept.is_prefix_of(text) {
            assert(kept =~= text.subrange(0, kept.len() as int));
            if kept.len() == text.len() {
                assert(kept.last() == text.last());
            } else {
                assert(kept =~= shorter.subrange(0, kept.len() as int));
            }
        }
        assert forall|i: int| kept.len() <= i < shorter.len() implies #[trigger] shorter[i]
            == text[i] by {}
        if forall|i: int|
            kept.len() <= i < shorter.len() ==> #[trigger] shorter[i] == 0x0a || shorter[i]
                == 0x0d {
            assert forall|i: int| kept.len() <= i < text.len() implies #[trigger] text[i] == 0x0a
                || text[i] == 0x0d by {
                if i < shorter.len() {
                    assert(shorter[i] == text[i]);
                }
            }
        }
    } else {
        if kept == text {
            assert(kept =~= text.subrange(0, kept.len() as int));
        } else if kept.is_prefix_of(text) {
            assert(kept =~= text.subrange(0, kept.len() as int));
            assert(kept.len() < text.len()) by {
                if kept.len() == text.len() {
                    assert(kept =~= text);
                }
            }
            assert(text[text.len() - 1] == text.last());
        }
    }
}

/// A port has a name just if the file with its name holds that very name, byte
/// for byte, and nothing but line feeds and carriage returns behind it.
pub proof fn ports_have_exact_names(entry: PortEntry, target: Seq<char>)
    ensures
        is_port(entry, target) <==> entry.name is Some && {
            let held = encode_utf8(entry.name->0@);
            let name = encode_utf8(target);
            &&& name.is_prefix_of(held)
            &&& forall|i: int|
                name.len() <= i < held.len() ==> #[trigger] held[i] == 0x0a || held[i] == 0x0d
            &&& name.len() == 0 || (name.last() != 0x0a && name.last() != 0x0d)
        },
{
    if let Some(name) = entry.name {
        lemma_trimmed(encode_utf8(name@), encode_utf8(target));
    }
}

/// No port has two different names. So the port of one stream is never taken for
/// that of another one, nor for that of the environment variables.
pub proof fn ports_have_one_name(entry: PortEntry, a: Seq<char>, b: Seq<char>)
    requires
        is_port(entry, a),
        is_port(entry, b),
    ensures
        a == b,
{
    encode_utf8_decode_utf8(a);
    encode_utf8_decode_utf8(b);
}

/// The device that is found is `/dev/` and the file name of a port with the very
/// name that was looked for, namely the first one. If none is found, there is no
/// such port.
pub proof fn devices_belong_to_ports(entries: Seq<PortEntry>, target: Seq<char>)
    ensures
        match port_device(entries, target) {
            Some(path) => exists|i: int|
                {
                    &&& 0 <= i < entries.len()
                    &&& is_port(#[trigger] entries[i], target)
                    &&& path == seq![0x2fu8, 0x64, 0x65, 0x76, 0x2f] + entries[i].file_name@
                    &&& forall|j: int| 0 <= j < i ==> !is_port(#[trigger] entries[j], target)
                },
            None => forall|j: int|
                0 <= j < entries.len() ==> !is_port(#[trigger] entries[j], target),
        },
    decreases entries.len(),
{
    if entries.len() > 0 {
        if is_port(entries[0], target) {
            assert(device_path(entries[0]) =~= seq![0x2fu8, 0x64, 0x65, 0x76, 0x2f]
                + entries[0].file_name@);
        } else {
            let rest = entries.drop_first();
            devices_belong_to_ports(rest, target);
            assert forall|j: int| 0 < j < entries.len() implies #[trigger] entries[j] == rest[j
                - 1] by {}
            if let Some(path) = port_device(rest, target) {
                let i = choose|i: int|
                    {
                        &&& 0 <= i < rest.len()
                        &&& is_port(#[trigger] rest[i], target)
                        &&& path == seq![0x2fu8, 0x64, 0x65, 0x76, 0x2f] + rest[i].file_name@
                        &&& forall|j: int| 0 <= j < i ==> !is_port(#[trigger] rest[j], target)
                    };
                assert(entries[i + 1] == rest[i]);
                assert forall|j: int| 0 <= j < i + 1 implies !is_port(
                    #[trigger] entries[j],
                    target,
                ) by {
                    if j > 0 {
                        assert(entries[j] == rest[j - 1]);
                    }
                }
            }
        }
    }
}

/// The port, the variable, and the file descriptor of each stream. No two streams
/// share any of them.
pub proof fn streams_are_kept_apart(a: Stream, b: Stream)
    ensures
        Stream::Stdin.spec_port_name() == "krun-stdin"@,
        Stream::Stdout.spec_port_name() == "krun-stdout"@,
        Stream::Stderr.spec_port_name() == "krun-stderr"@,
        Stream::Stdin.spec_variable() == "VMSH_STDIN"@,
        Stream::Stdout.spec_variable() == "VMSH_STDOUT"@,
        Stream::Stderr.spec_variable() == "VMSH_STDERR"@,
        Stream::Stdin.spec_fd() == 0,
        Stream::Stdout.spec_fd() == 1,
        Stream::Stderr.spec_fd() == 2,
        a != b ==> a.spec_port_name() != b.spec_port_name() && a.spec_variable()
            != b.spec_variable() && a.spec_fd() != b.spec_fd(),
{
    reveal_strlit("krun-stdin");
    reveal_strlit("krun-stdout");
    reveal_strlit("krun-stderr");
    reveal_strlit("VMSH_STDIN");
    reveal_strlit("VMSH_STDOUT");
    reveal_strlit("VMSH_STDERR");
    assert(Stream::Stdout.spec_port_name()[8] != Stream::Stderr.spec_port_name()[8]);
    assert(Stream::Stdout.spec_variable()[8] != Stream::Stderr.spec_variable()[8]);
    assert(Stream::Stdin.spec_port_name().len() != Stream::Stdout.spec_port_name().len());
    assert(Stream::Stdin.spec_variable().len() != Stream::Stdout.spec_variable().len());
    assert(Stream::Stdin.spec_port_name().len() != Stream::Stderr.spec_port_name().len());
    assert(Stream::Stdin.spec_variable().len() != Stream::Stderr.spec_variable().len());
}

/// Each stream is attached just if that very stream is redirected and its port is
/// there in one of 500 rounds.
pub proof fn redirected_streams_are_attached(
    redirected: Redirected,
    there: spec_fn(Stream, int) -> bool,
)
    ensures
        ({
            let all = attached(RedirectRun::initial(redirected), there);
            &&& all.contains(Stream::Stdin) <==> redirected.stdin && exists|k: int|
                0 <= k < 500 && #[trigger] there(Stream::Stdin, k)
            &&& all.contains(Stream::Stdout) <==> redirected.stdout && exists|k: int|
                0 <= k < 500 && #[trigger] there(Stream::Stdout, k)
            &&& all.contains(Stream::Stderr) <==> redirected.stderr && exists|k: int|
                0 <= k < 500 && #[trigger] there(Stream::Stderr, k)
            &&& all.no_duplicates()
        }),
{
    streams_with_ports_are_attached(redirected, there, Stream::Stdin);
    streams_with_ports_are_attached(redirected, there, Stream::Stdout);
    streams_with_ports_are_attached(redirected, there, Stream::Stderr);
}

/// A search looks, and rests between two attempts; looking in vain counts as one
/// attempt, and nothing else does. What it finds is what was there.
pub proof fn search_looks_and_rests(search: PortSearch, path: Vec<u8>)
    ensures
        search.attempt < search.max_attempts ==> search_step(search, PortEvent::Begin) == (
            search,
            PortAction::Scan,
        ),
        search.attempt >= search.max_attempts ==> search_step(search, PortEvent::Begin).1
            == PortAction::GaveUp,
        search_step(search, PortEvent::Rested) == (search, PortAction::Scan),
        search_step(search, PortEvent::Scanned(Some(path))).1 == PortAction::Found(path),
        search.attempt + 1 < search.max_attempts ==> search_step(search, PortEvent::Scanned(None))
            == (
            PortSearch {
                max_attempts: search.max_attempts,
                attempt: (search.attempt + 1) as i32,
            },
            PortAction::Rest,
        ),
        search.attempt + 1 >= search.max_attempts ==> search_step(
            search,
            PortEvent::Scanned(None),
        ).1 == PortAction::GaveUp,
{
}

} // verus!
