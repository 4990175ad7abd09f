//! The environment variables that are handed to the guest.
//!
//! The host puts them together and writes one `KEY=VALUE` line for each; the
//! guest reads the lines back.

use vstd::prelude::*;
use vstd::utf8::encode_utf8;

use crate::bytes::{
    bytes_equal, bytes_less, bytes_lt, find_byte, first_index, lemma_bytes_lt_irreflexive,
    lemma_bytes_lt_total, lemma_bytes_lt_transitive, lemma_first_index, lemma_first_index_at,
    starts_with,
};
use crate::lines::{lemma_lines_cons, line_ends, lines, next_line, without_cr};

verus! {

/// Names and values of variables, in some order.
pub open spec fn pairs(vars: Seq<(Vec<u8>, Vec<u8>)>) -> Seq<(Seq<u8>, Seq<u8>)> {
    Seq::new(vars.len(), |i: int| (vars[i].0@, vars[i].1@))
}

/// The environment that results from setting `vars` one after the other.
pub open spec fn env_map(vars: Seq<(Seq<u8>, Seq<u8>)>) -> Map<Seq<u8>, Seq<u8>>
    decreases vars.len(),
{
    if vars.len() == 0 {
        Map::empty()
    } else {
        env_map(vars.drop_last()).insert(vars.last().0, vars.last().1)
    }
}

/// The prefix of the variables that are internal to vmsh: `VMSH_`.
pub const VMSH_PREFIX: [u8; 5] = [0x56, 0x4d, 0x53, 0x48, 0x5f];

/// The prefix of the variables that are internal to libkrun: `KRUN_`.
pub const KRUN_PREFIX: [u8; 5] = [0x4b, 0x52, 0x55, 0x4e, 0x5f];

/// A variable that is reserved by vmsh (`VMSH_*`) or internal to libkrun
/// (`KRUN_*`).
pub open spec fn is_reserved(key: Seq<u8>) -> bool {
    VMSH_PREFIX@.is_prefix_of(key) || KRUN_PREFIX@.is_prefix_of(key)
}

/// The part of the host's environment that is forwarded as a whole.
pub open spec fn forwarded(host: Map<Seq<u8>, Seq<u8>>) -> Map<Seq<u8>, Seq<u8>> {
    Map::new(|key: Seq<u8>| host.dom().contains(key) && !is_reserved(key), |key: Seq<u8>| host[key])
}

/// The name and the value that `text` assigns, split at its first `=`.
pub open spec fn assignment(text: Seq<u8>) -> Option<(Seq<u8>, Seq<u8>)> {
    let at = first_index(text, 0x3d);
    if at < text.len() {
        Some((text.take(at as int), text.skip(at as int + 1)))
    } else {
        None
    }
}

/// `env` after an `--env` flag: `KEY=VALUE` sets an explicit value, and `KEY`
/// forwards the value of the host, if it has one.
pub open spec fn with_flag(
    env: Map<Seq<u8>, Seq<u8>>,
    host: Map<Seq<u8>, Seq<u8>>,
    flag: Seq<u8>,
) -> Map<Seq<u8>, Seq<u8>> {
    match assignment(flag) {
        Some((key, value)) => env.insert(key, value),
        None => if host.dom().contains(flag) {
            env.insert(flag, host[flag])
        } else {
            env
        },
    }
}

/// The environment of the guest, for the `--env` flags `flags`.
pub open spec fn guest_env(
    flags: Seq<Seq<u8>>,
    all_envs: bool,
    host: Map<Seq<u8>, Seq<u8>>,
) -> Map<Seq<u8>, Seq<u8>>
    decreases flags.len(),
{
    if flags.len() > 0 {
        with_flag(guest_env(flags.drop_last(), all_envs, host), host, flags.last())
    } else if all_envs {
        forwarded(host)
    } else {
        Map::empty()
    }
}

/// Variables in ascending order of their names, none of which occurs twice.
pub open spec fn ascending(vars: Seq<(Seq<u8>, Seq<u8>)>) -> bool {
    forall|i: int, j: int| 0 <= i < j < vars.len() ==> bytes_lt(vars[i].0, vars[j].0)
}

/// `vars` lists the variables of `env` in ascending order.
pub open spec fn is_listing(
    vars: Seq<(Seq<u8>, Seq<u8>)>,
    env: Map<Seq<u8>, Seq<u8>>,
) -> bool {
    ascending(vars) && env_map(vars) == env
}

/// The line for a variable: `KEY=VALUE` and a line feed.
pub open spec fn env_line(key: Seq<u8>, value: Seq<u8>) -> Seq<u8> {
    key + seq![0x3du8] + value + seq![0x0au8]
}

/// The lines for `vars`, in the order given.
pub open spec fn env_lines(vars: Seq<(Seq<u8>, Seq<u8>)>) -> Seq<u8>
    decreases vars.len(),
{
    if vars.len() == 0 {
        Seq::empty()
    } else {
        env_lines(vars.drop_last()) + env_line(vars.last().0, vars.last().1)
    }
}

/// The lines for the variables of `env`, in ascending order of their names.
pub open spec fn env_payload(env: Map<Seq<u8>, Seq<u8>>) -> Seq<u8> {
    env_lines(choose|vars: Seq<(Seq<u8>, Seq<u8>)>| is_listing(vars, env))
}

/// The flags given by `args`, as bytes.
pub open spec fn flag_bytes(args: Seq<String>) -> Seq<Seq<u8>> {
    Seq::new(args.len(), |i: int| encode_utf8(args[i]@))
}

/// What an environment contains: the variables that were set.
proof fn lemma_env_map_dom(vars: Seq<(Seq<u8>, Seq<u8>)>, key: Seq<u8>)
    ensures
        env_map(vars).dom().contains(key) <==> exists|i: int|
            0 <= i < vars.len() && vars[i].0 == key,
    decreases vars.len(),
{
    if vars.len() > 0 {
        let init = vars.drop_last();
        lemma_env_map_dom(init, key);
        if vars.last().0 == key {
            assert(vars[vars.len() - 1].0 == key);
        }
        if exists|i: int| 0 <= i < init.len() && init[i].0 == key {
            let i = choose|i: int| 0 <= i < init.len() && init[i].0 == key;
            assert(vars[i].0 == key);
        }
        if exists|i: int| 0 <= i < vars.len() && vars[i].0 == key {
            let i = choose|i: int| 0 <= i < vars.len() && vars[i].0 == key;
            if i < init.len() {
                assert(init[i].0 == key);
            }
        }
    }
}

/// The value of a variable is the one that was set last.
proof fn lemma_env_map_value(vars: Seq<(Seq<u8>, Seq<u8>)>, i: int)
    requires
        0 <= i < vars.len(),
        forall|j: int| i < j < vars.len() ==> vars[j].0 != vars[i].0,
    ensures
        env_map(vars).dom().contains(vars[i].0),
        env_map(vars)[vars[i].0] == vars[i].1,
    decreases vars.len(),
{
    if i < vars.len() - 1 {
        let init = vars.drop_last();
        assert forall|j: int| i < j < init.len() implies init[j].0 != init[i].0 by {
            assert(init[j] == vars[j]);
        }
        lemma_env_map_value(init, i);
        assert(vars[vars.len() - 1].0 != vars[i].0);
    }
}

/// In an ascending list every variable keeps its value.
proof fn lemma_ascending_value(vars: Seq<(Seq<u8>, Seq<u8>)>, i: int)
    requires
        ascending(vars),
        0 <= i < vars.len(),
    ensures
        env_map(vars).dom().contains(vars[i].0),
        env_map(vars)[vars[i].0] == vars[i].1,
{
    assert forall|j: int| i < j < vars.len() implies vars[j].0 != vars[i].0 by {
        lemma_bytes_lt_irreflexive(vars[i].0);
    }
    lemma_env_map_value(vars, i);
}

/// Without its last variable, an ascending list holds the rest of the
/// environment.
proof fn lemma_ascending_init(vars: Seq<(Seq<u8>, Seq<u8>)>)
    requires
        ascending(vars),
        vars.len() > 0,
    ensures
        ascending(vars.drop_last()),
        env_map(vars.drop_last()) == env_map(vars).remove(vars.last().0),
{
    let init = vars.drop_last();
    let key = vars.last().0;
    assert forall|i: int, j: int| 0 <= i < j < init.len() implies bytes_lt(
        init[i].0,
        init[j].0,
    ) by {
        assert(init[i] == vars[i] && init[j] == vars[j]);
    }
    lemma_env_map_dom(init, key);
    if env_map(init).dom().contains(key) {
        let i = choose|i: int| 0 <= i < init.len() && init[i].0 == key;
        assert(bytes_lt(vars[i].0, vars[vars.len() - 1].0));
        lemma_bytes_lt_irreflexive(key);
    }
    assert(env_map(init) =~= env_map(vars).remove(key));
}

/// An environment has one listing only.
pub proof fn listing_is_unique(
    a: Seq<(Seq<u8>, Seq<u8>)>,
    b: Seq<(Seq<u8>, Seq<u8>)>,
    env: Map<Seq<u8>, Seq<u8>>,
)
    requires
        is_listing(a, env),
        is_listing(b, env),
    ensures
        a == b,
    decreases a.len(),
{
    if a.len() > 0 {
        lemma_ascending_value(a, a.len() - 1);
        lemma_env_map_dom(b, a.last().0);
        let i = choose|i: int| 0 <= i < b.len() && b[i].0 == a.last().0;
        lemma_ascending_value(b, b.len() - 1);
        lemma_env_map_dom(a, b.last().0);
        let j = choose|j: int| 0 <= j < a.len() && a[j].0 == b.last().0;
        if i < b.len() - 1 && j < a.len() - 1 {
            assert(bytes_lt(b[i].0, b[b.len() - 1].0));
            assert(bytes_lt(a[j].0, a[a.len() - 1].0));
            lemma_bytes_lt_transitive(a.last().0, b.last().0, a.last().0);
            lemma_bytes_lt_irreflexive(a.last().0);
        }
        assert(a.last() == b.last());
        lemma_ascending_init(a);
        lemma_ascending_init(b);
        listing_is_unique(a.drop_last(), b.drop_last(), env.remove(a.last().0));
        assert(a =~= a.drop_last().push(a.last()));
        assert(b =~= b.drop_last().push(b.last()));
    } else if b.len() > 0 {
        lemma_ascending_value(b, b.len() - 1);
    }
    assert(a =~= b);
}

/// The payload for an environment consists of the lines of its listing.
pub proof fn payload_of_listing(vars: Seq<(Seq<u8>, Seq<u8>)>, env: Map<Seq<u8>, Seq<u8>>)
    requires
        is_listing(vars, env),
    ensures
        env_payload(env) == env_lines(vars),
{
    let chosen = choose|vars: Seq<(Seq<u8>, Seq<u8>)>| is_listing(vars, env);
    listing_is_unique(vars, chosen, env);
}

/// Putting a variable into its place in an ascending list sets it in the
/// environment.
proof fn lemma_insert(
    vars: Seq<(Seq<u8>, Seq<u8>)>,
    at: int,
    key: Seq<u8>,
    value: Seq<u8>,
)
    requires
        ascending(vars),
        0 <= at <= vars.len(),
        forall|i: int| 0 <= i < at ==> bytes_lt(#[trigger] vars[i].0, key),
        at < vars.len() ==> bytes_lt(key, vars[at].0),
    ensures
        ascending(vars.insert(at, (key, value))),
        env_map(vars.insert(at, (key, value))) == env_map(vars).insert(key, value),
{
    let new = vars.insert(at, (key, value));
    assert forall|i: int, j: int| 0 <= i < j < new.len() implies bytes_lt(new[i].0, new[j].0) by {
        if j == at {
            assert(new[i] == vars[i]);
        } else if i == at {
            assert(new[j] == vars[j - 1]);
            if j - 1 > at {
                lemma_bytes_lt_transitive(key, vars[at].0, vars[j - 1].0);
            }
        } else {
            let p = if i < at { i } else { i - 1 };
            let q = if j < at { j } else { j - 1 };
            assert(new[i] == vars[p] && new[j] == vars[q]);
        }
    }
    lemma_same_env(new, env_map(vars).insert(key, value), vars, at);
}

/// Replacing the value of a variable in an ascending list sets it in the
/// environment.
proof fn lemma_replace(vars: Seq<(Seq<u8>, Seq<u8>)>, at: int, value: Seq<u8>)
    requires
        ascending(vars),
        0 <= at < vars.len(),
    ensures
        ascending(vars.update(at, (vars[at].0, value))),
        env_map(vars.update(at, (vars[at].0, value))) == env_map(vars).insert(vars[at].0, value),
{
    let key = vars[at].0;
    let new = vars.update(at, (key, value));
    assert forall|i: int, j: int| 0 <= i < j < new.len() implies bytes_lt(new[i].0, new[j].0) by {
        assert(new[i].0 == vars[i].0 && new[j].0 == vars[j].0);
    }
    let expected = env_map(vars).insert(key, value);
    assert forall|k: Seq<u8>| env_map(new).dom().contains(k) <==> expected.dom().contains(k) by {
        lemma_env_map_dom(new, k);
        lemma_env_map_dom(vars, k);
        if expected.dom().contains(k) && k != key {
            let i = choose|i: int| 0 <= i < vars.len() && vars[i].0 == k;
            assert(new[i].0 == k);
        }
        if k == key {
            assert(new[at].0 == k);
        }
        if env_map(new).dom().contains(k) {
            let i = choose|i: int| 0 <= i < new.len() && new[i].0 == k;
            assert(vars[i].0 == k);
        }
    }
    assert forall|k: Seq<u8>| env_map(new).dom().contains(k) implies env_map(new)[k]
        == expected[k] by {
        lemma_env_map_dom(new, k);
        let i = choose|i: int| 0 <= i < new.len() && new[i].0 == k;
        lemma_ascending_value(new, i);
        lemma_ascending_value(vars, i);
        if i != at && k == key {
            if i < at {
                assert(bytes_lt(vars[i].0, vars[at].0));
            } else {
                assert(bytes_lt(vars[at].0, vars[i].0));
            }
            lemma_bytes_lt_irreflexive(key);
        }
    }
    assert(env_map(new) =~= expected);
}

/// The environment of an ascending list with one more variable.
proof fn lemma_same_env(
    new: Seq<(Seq<u8>, Seq<u8>)>,
    expected: Map<Seq<u8>, Seq<u8>>,
    vars: Seq<(Seq<u8>, Seq<u8>)>,
    at: int,
)
    requires
        ascending(vars),
        ascending(new),
        0 <= at <= vars.len(),
        new == vars.insert(at, new[at]),
        expected == env_map(vars).insert(new[at].0, new[at].1),
    ensures
        env_map(new) == expected,
{
    let key = new[at].0;
    assert forall|k: Seq<u8>| env_map(new).dom().contains(k) <==> expected.dom().contains(k) by {
        lemma_env_map_dom(new, k);
        lemma_env_map_dom(vars, k);
        if expected.dom().contains(k) && k != key {
            let i = choose|i: int| 0 <= i < vars.len() && vars[i].0 == k;
            let p = if i < at { i } else { i + 1 };
            assert(new[p] == vars[i]);
        }
        if env_map(new).dom().contains(k) {
            let i = choose|i: int| 0 <= i < new.len() && new[i].0 == k;
            if i != at {
                let p = if i < at { i } else { i - 1 };
                assert(new[i] == vars[p]);
            }
        }
    }
    assert forall|k: Seq<u8>| env_map(new).dom().contains(k) implies env_map(new)[k]
        == expected[k] by {
        lemma_env_map_dom(new, k);
        let i = choose|i: int| 0 <= i < new.len() && new[i].0 == k;
        lemma_ascending_value(new, i);
        if i != at {
            let p = if i < at { i } else { i - 1 };
            assert(new[i] == vars[p]);
            lemma_ascending_value(vars, p);
            if i < at {
                assert(bytes_lt(new[i].0, new[at].0));
            } else {
                assert(bytes_lt(new[at].0, new[i].0));
            }
            lemma_bytes_lt_irreflexive(key);
        }
    }
    assert(env_map(new) =~= expected);
}

/// Variables kept in ascending order of their names.
struct EnvTable {
    vars: Vec<(Vec<u8>, Vec<u8>)>,
}

impl EnvTable {
    /// The table is in order and lists each variable once.
    spec fn well_formed(self) -> bool {
        ascending(pairs(self.vars@))
    }

    /// The environment that the table stands for.
    spec fn env(self) -> Map<Seq<u8>, Seq<u8>> {
        env_map(pairs(self.vars@))
    }

    /// Create an empty table.
    fn new() -> (r: Self)
        ensures
            r.well_formed(),
            r.env() == Map::<Seq<u8>, Seq<u8>>::empty(),
    {
        EnvTable { vars: Vec::new() }
    }

    /// Set a variable.
    fn insert(&mut self, key: Vec<u8>, value: Vec<u8>)
        requires
            old(self).well_formed(),
        ensures
            final(self).well_formed(),
            final(self).env() == old(self).env().insert(key@, value@),
    {
        let mut at: usize = 0;
        while at < self.vars.len() && bytes_less(self.vars[at].0.as_slice(), key.as_slice())
            invariant
                at <= self.vars@.len(),
                *self == *old(self),
                forall|i: int| 0 <= i < at ==> bytes_lt(#[trigger] self.vars@[i].0@, key@),
            decreases self.vars@.len() - at,
        {
            at = at + 1;
        }
        let ghost before = pairs(self.vars@);
        if at < self.vars.len() && bytes_equal(self.vars[at].0.as_slice(), key.as_slice()) {
            proof {
                lemma_replace(before, at as int, value@);
            }
            self.vars.set(at, (key, value));
            assert(pairs(self.vars@) =~= before.update(at as int, (key@, value@)));
        } else {
            proof {
                if at < self.vars@.len() {
                    lemma_bytes_lt_total(self.vars@[at as int].0@, key@);
                }
                lemma_insert(before, at as int, key@, value@);
            }
            self.vars.insert(at, (key, value));
            assert(pairs(self.vars@) =~= before.insert(at as int, (key@, value@)));
        }
    }

    /// Write a line for each variable.
    fn payload(&self) -> (r: Vec<u8>)
        requires
            self.well_formed(),
        ensures
            r@ == env_payload(self.env()),
    {
        let mut out: Vec<u8> = Vec::new();
        let ghost vars = pairs(self.vars@);
        let mut i: usize = 0;
        while i < self.vars.len()
            invariant
                i <= self.vars@.len(),
                vars == pairs(self.vars@),
                out@ == env_lines(vars.take(i as int)),
            decreases self.vars@.len() - i,
        {
            out.extend_from_slice(self.vars[i].0.as_slice());
            out.push(0x3d);
            out.extend_from_slice(self.vars[i].1.as_slice());
            out.push(0x0a);
            assert(vars.take(i + 1).drop_last() =~= vars.take(i as int));
            let ghost (key, value) = vars[i as int];
            assert(out@ =~= env_lines(vars.take(i as int)) + env_line(key, value));
            i = i + 1;
        }
        assert(vars.take(i as int) =~= vars);
        proof {
            payload_of_listing(vars, self.env());
        }
        out
    }
}

/// Find the value that `key` has in `vars`, by its position.
fn lookup(vars: &Vec<(Vec<u8>, Vec<u8>)>, key: &[u8]) -> (r: Option<usize>)
    ensures
        match r {
            Some(i) => {
                &&& i < vars@.len()
                &&& env_map(pairs(vars@)).dom().contains(key@)
                &&& env_map(pairs(vars@))[key@] == vars@[i as int].1@
            },
            None => !env_map(pairs(vars@)).dom().contains(key@),
        },
{
    let ghost all = pairs(vars@);
    let mut i: usize = vars.len();
    while i > 0
        invariant
            i <= vars@.len(),
            all == pairs(vars@),
            forall|j: int| i <= j < vars@.len() ==> #[trigger] all[j].0 != key@,
        decreases i,
    {
        i = i - 1;
        if bytes_equal(vars[i].0.as_slice(), key) {
            proof {
                assert(all[i as int].0 == key@);
                lemma_env_map_value(all, i as int);
            }
            return Some(i);
        }
    }
    proof {
        lemma_env_map_dom(all, key@);
    }
    None
}

/// Build the environment variable payload from the `--env` flags and the
/// host's environment.
///
/// Variables that are reserved or overridden by vmsh (`VMSH_*`) or internal
/// to libkrun (`KRUN_*`) are excluded when `all_envs` is set.
pub fn build_env_content(
    env_args: &[String],
    all_envs: bool,
    host_env: Vec<(Vec<u8>, Vec<u8>)>,
) -> (r: Vec<u8>)
    ensures
        r@ == env_payload(
            guest_env(flag_bytes(env_args@), all_envs, env_map(pairs(host_env@))),
        ),
{
    let ghost host = env_map(pairs(host_env@));
    let ghost flags = flag_bytes(env_args@);
    let mut table = EnvTable::new();
    if all_envs {
        let ghost all = pairs(host_env@);
        let mut i: usize = 0;
        assert(table.env() =~= forwarded(env_map(all.take(0))));
        while i < host_env.len()
            invariant
                i <= host_env@.len(),
                all == pairs(host_env@),
                table.well_formed(),
                table.env() == forwarded(env_map(all.take(i as int))),
            decreases host_env@.len() - i,
        {
            let key = host_env[i].0.as_slice();
            let reserved = starts_with(key, VMSH_PREFIX.as_slice()) || starts_with(
                key,
                KRUN_PREFIX.as_slice(),
            );
            let ghost before = env_map(all.take(i as int));
            assert(all.take(i + 1).drop_last() =~= all.take(i as int));
            if !reserved {
                let value = host_env[i].1.as_slice();
                table.insert(vstd::slice::slice_to_vec(key), vstd::slice::slice_to_vec(value));
            }
            assert(table.env() =~= forwarded(env_map(all.take(i + 1))));
            i = i + 1;
        }
        assert(all.take(i as int) =~= all);
    }
    assert(flags.take(0) =~= Seq::<Seq<u8>>::empty());
    let mut i: usize = 0;
    while i < env_args.len()
        invariant
            i <= env_args@.len(),
            flags == flag_bytes(env_args@),
            host == env_map(pairs(host_env@)),
            table.well_formed(),
            table.env() == guest_env(flags.take(i as int), all_envs, host),
        decreases env_args@.len() - i,
    {
        let flag = env_args[i].as_str().as_bytes();
        assert(flag@ == flags[i as int]);
        assert(flags.take(i + 1).drop_last() =~= flags.take(i as int));
        assert(flags.take(i + 1).last() == flags[i as int]);
        let at: usize = find_byte(flag, 0x3d);
        if at < flag.len() {
            let key = vstd::slice::slice_subrange(flag, 0, at);
            let value = vstd::slice::slice_subrange(flag, at + 1, flag.len());
            assert(key@ =~= flag@.take(at as int));
            assert(value@ =~= flag@.skip(at + 1));
            table.insert(vstd::slice::slice_to_vec(key), vstd::slice::slice_to_vec(value));
        } else {
            proof {
                lemma_first_index_at(flag@, 0x3d);
            }
            match lookup(&host_env, flag) {
                Some(j) => {
                    let value = host_env[j].1.as_slice();
                    table.insert(vstd::slice::slice_to_vec(flag), vstd::slice::slice_to_vec(value));
                },
                None => {},
            }
        }
        i = i + 1;
    }
    assert(flags.take(i as int) =~= flags);
    table.payload()
}

/// The variables that the guest sets for the lines that it reads. Lines
/// without a `=` are skipped.
pub open spec fn assignments(lines: Seq<Seq<u8>>) -> Seq<(Seq<u8>, Seq<u8>)>
    decreases lines.len(),
{
    if lines.len() == 0 {
        Seq::empty()
    } else {
        match assignment(lines[0]) {
            Some(var) => seq![var] + assignments(lines.drop_first()),
            None => assignments(lines.drop_first()),
        }
    }
}

/// The part of `content` up to the end of the last line that a line feed ends.
pub open spec fn whole_lines(content: Seq<u8>) -> Seq<u8>
    decreases content.len(),
{
    if content.len() == 0 || content.last() == 0x0a {
        content
    } else {
        whole_lines(content.drop_last())
    }
}

/// Find the end of the last line that a line feed ends.
fn end_of_whole_lines(content: &[u8]) -> (r: usize)
    ensures
        r <= content@.len(),
        content@.take(r as int) == whole_lines(content@),
{
    let mut end: usize = content.len();
    assert(content@.take(end as int) =~= content@);
    while end > 0 && content[end - 1] != 0x0a
        invariant
            end <= content@.len(),
            whole_lines(content@) == whole_lines(content@.take(end as int)),
        decreases end,
    {
        assert(content@.take(end as int).drop_last() =~= content@.take(end - 1));
        end = end - 1;
    }
    end
}

/// Collect the variables that the lines of `content` assign.
fn collect_assignments(content: &[u8]) -> (r: Vec<(Vec<u8>, Vec<u8>)>)
    ensures
        pairs(r@) == assignments(lines(content@)),
{
    let mut out: Vec<(Vec<u8>, Vec<u8>)> = Vec::new();
    let mut pos: usize = 0;
    assert(content@.skip(0) =~= content@);
    while pos < content.len()
        invariant
            pos <= content@.len(),
            assignments(lines(content@)) =~= pairs(out@) + assignments(
                lines(content@.skip(pos as int)),
            ),
        decreases content@.len() - pos,
    {
        let (end, next) = next_line(content, pos);
        let line = vstd::slice::slice_subrange(content, pos, end);
        let ghost rest = lines(content@.skip(next as int));
        assert(lines(content@.skip(pos as int)).drop_first() =~= rest);
        let at: usize = find_byte(line, 0x3d);
        let ghost before = pairs(out@);
        if at < line.len() {
            let key = vstd::slice::slice_subrange(line, 0, at);
            let value = vstd::slice::slice_subrange(line, at + 1, line.len());
            assert(key@ =~= line@.take(at as int));
            assert(value@ =~= line@.skip(at + 1));
            out.push((vstd::slice::slice_to_vec(key), vstd::slice::slice_to_vec(value)));
            assert(pairs(out@) =~= before + seq![(key@, value@)]);
        }
        pos = next;
    }
    assert(lines(content@.skip(pos as int)) =~= Seq::<Seq<u8>>::empty());
    out
}

/// Load environment variables from what a virtio console port delivers: one
/// `KEY=VALUE` per line. They are to be set in the order in which they are
/// returned. Neither names nor values need to be UTF-8.
///
/// `interrupted` tells that reading ended in an error; a line that was not
/// read to its end is then ignored.
pub fn load_env_vars(content: &[u8], interrupted: bool) -> (r: Vec<(Vec<u8>, Vec<u8>)>)
    ensures
        pairs(r@) == assignments(
            lines(
                if interrupted {
                    whole_lines(content@)
                } else {
                    content@
                },
            ),
        ),
{
    let len: usize = if interrupted {
        end_of_whole_lines(content)
    } else {
        content.len()
    };
    let read = vstd::slice::slice_subrange(content, 0, len);
    proof {
        if !interrupted {
            assert(read@ =~= content@);
        } else {
            assert(read@ =~= content@.take(len as int));
        }
    }
    collect_assignments(read)
}

/// An `--env` flag that is about the variable `key`.
pub open spec fn names(flag: Seq<u8>, key: Seq<u8>) -> bool {
    match assignment(flag) {
        Some((name, _)) => name == key,
        None => flag == key,
    }
}

/// A variable that no `--env` flag is about reaches the guest just if all
/// variables are forwarded, the host has it, and it is not reserved; it then
/// has the value that it has on the host. So `VMSH_*` and `KRUN_*` are never
/// forwarded along with the rest.
pub proof fn unnamed_variables_are_forwarded(
    flags: Seq<Seq<u8>>,
    all_envs: bool,
    host: Map<Seq<u8>, Seq<u8>>,
    key: Seq<u8>,
)
    requires
        forall|i: int| 0 <= i < flags.len() ==> !names(#[trigger] flags[i], key),
    ensures
        guest_env(flags, all_envs, host).dom().contains(key) <==> all_envs && host.dom().contains(
            key,
        ) && !is_reserved(key),
        guest_env(flags, all_envs, host).dom().contains(key) ==> guest_env(
            flags,
            all_envs,
            host,
        )[key] == host[key],
    decreases flags.len(),
{
    if flags.len() > 0 {
        let init = flags.drop_last();
        assert forall|i: int| 0 <= i < init.len() implies !names(#[trigger] init[i], key) by {
            assert(init[i] == flags[i]);
        }
        unnamed_variables_are_forwarded(init, all_envs, host, key);
        assert(!names(flags[flags.len() - 1], key));
    }
}

/// The last `--env` flag about a variable decides its value: `KEY=VALUE` sets
/// it, whatever earlier flags and the host say, and `KEY` sets it to the value
/// that it has on the host.
pub proof fn last_flag_decides(
    flags: Seq<Seq<u8>>,
    all_envs: bool,
    host: Map<Seq<u8>, Seq<u8>>,
    at: int,
    key: Seq<u8>,
)
    requires
        0 <= at < flags.len(),
        names(flags[at], key),
        forall|i: int| at < i < flags.len() ==> !names(#[trigger] flags[i], key),
    ensures
        assignment(flags[at]) matches Some((_, value)) ==> guest_env(
            flags,
            all_envs,
            host,
        ).dom().contains(key) && guest_env(flags, all_envs, host)[key] == value,
        assignment(flags[at]) is None && host.dom().contains(key) ==> guest_env(
            flags,
            all_envs,
            host,
        ).dom().contains(key) && guest_env(flags, all_envs, host)[key] == host[key],
    decreases flags.len(),
{
    if at < flags.len() - 1 {
        let init = flags.drop_last();
        assert forall|i: int| at < i < init.len() implies !names(#[trigger] init[i], key) by {
            assert(init[i] == flags[i]);
        }
        last_flag_decides(init, all_envs, host, at, key);
        assert(!names(flags[flags.len() - 1], key));
    }
}

/// A flag `KEY` has no effect if the host does not have the variable.
pub proof fn missing_variable_is_skipped(
    flags: Seq<Seq<u8>>,
    all_envs: bool,
    host: Map<Seq<u8>, Seq<u8>>,
    key: Seq<u8>,
)
    requires
        assignment(key) is None,
        !host.dom().contains(key),
    ensures
        guest_env(flags.push(key), all_envs, host) == guest_env(flags, all_envs, host),
{
    assert(flags.push(key).drop_last() =~= flags);
}

/// Without any flag nothing is handed to the guest.
pub proof fn no_flags_no_payload(host: Map<Seq<u8>, Seq<u8>>)
    ensures
        env_payload(guest_env(Seq::empty(), false, host)) == Seq::<u8>::empty(),
{
    payload_of_listing(Seq::empty(), Map::empty());
}

/// There is a payload only if there is a variable: the host offers the guest
/// something to read just if the environment of the guest is not empty.
pub proof fn payload_is_empty_iff_env_is(env: Map<Seq<u8>, Seq<u8>>)
    requires
        env.dom().finite(),
    ensures
        env_payload(env).len() == 0 <==> env == Map::<Seq<u8>, Seq<u8>>::empty(),
{
    let vars = lemma_listing_exists(env);
    payload_of_listing(vars, env);
    if vars.len() > 0 {
        lemma_ascending_value(vars, vars.len() - 1);
        assert(env.dom().contains(vars.last().0));
    } else {
        assert(env =~= Map::empty());
    }
}

/// The environment of the guest is finite if that of the host is.
pub proof fn guest_env_is_finite(
    flags: Seq<Seq<u8>>,
    all_envs: bool,
    host: Map<Seq<u8>, Seq<u8>>,
)
    requires
        host.dom().finite(),
    ensures
        guest_env(flags, all_envs, host).dom().finite(),
    decreases flags.len(),
{
    if flags.len() > 0 {
        guest_env_is_finite(flags.drop_last(), all_envs, host);
    } else if all_envs {
        assert(forwarded(host).dom() =~= host.dom().filter(|key: Seq<u8>| !is_reserved(key)));
        host.dom().lemma_len_filter(|key: Seq<u8>| !is_reserved(key));
    }
}

/// Where a variable that is not listed yet belongs in an ascending list.
proof fn lemma_position(vars: Seq<(Seq<u8>, Seq<u8>)>, key: Seq<u8>) -> (at: int)
    requires
        ascending(vars),
        !env_map(vars).dom().contains(key),
    ensures
        0 <= at <= vars.len(),
        forall|i: int| 0 <= i < at ==> bytes_lt(#[trigger] vars[i].0, key),
        at < vars.len() ==> bytes_lt(key, vars[at].0),
    decreases vars.len(),
{
    if vars.len() == 0 {
        0
    } else {
        let init = vars.drop_last();
        lemma_ascending_init(vars);
        lemma_ascending_value(vars, vars.len() - 1);
        lemma_bytes_lt_total(vars.last().0, key);
        let at = lemma_position(init, key);
        if bytes_lt(vars.last().0, key) {
            assert forall|i: int| 0 <= i < vars.len() implies bytes_lt(
                #[trigger] vars[i].0,
                key,
            ) by {
                if i < vars.len() - 1 {
                    lemma_bytes_lt_transitive(vars[i].0, vars[vars.len() - 1].0, key);
                }
            }
            vars.len() as int
        } else {
            assert forall|i: int| 0 <= i < at implies bytes_lt(#[trigger] vars[i].0, key) by {
                assert(init[i] == vars[i]);
            }
            at
        }
    }
}

/// Every finite environment has a listing.
pub proof fn lemma_listing_exists(env: Map<Seq<u8>, Seq<u8>>) -> (vars: Seq<(Seq<u8>, Seq<u8>)>)
    requires
        env.dom().finite(),
    ensures
        is_listing(vars, env),
    decreases env.dom().len(),
{
    if env.dom().is_empty() {
        assert(env =~= Map::empty());
        Seq::empty()
    } else {
        let key = env.dom().choose();
        let rest = lemma_listing_exists(env.remove(key));
        let at = lemma_position(rest, key);
        lemma_insert(rest, at, key, env[key]);
        assert(env_map(rest.insert(at, (key, env[key]))) =~= env);
        rest.insert(at, (key, env[key]))
    }
}

/// A variable that survives the transport as a line: its name has no `=`,
/// neither name nor value has a line feed, and the value does not end in a
/// carriage return.
pub open spec fn transportable(key: Seq<u8>, value: Seq<u8>) -> bool {
    &&& !key.contains(0x3d)
    &&& !key.contains(0x0a)
    &&& !value.contains(0x0a)
    &&& without_cr(value) == value
}

/// The lines of a list start with the line of its first variable.
proof fn lemma_env_lines_first(vars: Seq<(Seq<u8>, Seq<u8>)>)
    requires
        vars.len() > 0,
    ensures
        env_lines(vars) == env_line(vars[0].0, vars[0].1) + env_lines(vars.drop_first()),
    decreases vars.len(),
{
    if vars.len() == 1 {
        assert(vars.drop_last() =~= Seq::empty());
        assert(vars.drop_first() =~= Seq::empty());
        assert(env_lines(vars) =~= env_line(vars[0].0, vars[0].1) + env_lines(vars.drop_first()));
    } else {
        let init = vars.drop_last();
        lemma_env_lines_first(init);
        assert(init.drop_first() =~= vars.drop_first().drop_last());
        assert(env_lines(vars) =~= env_line(vars[0].0, vars[0].1) + env_lines(vars.drop_first()));
    }
}

/// The guest reads back the very variables that were written, in the same
/// order.
pub proof fn lines_are_read_back(vars: Seq<(Seq<u8>, Seq<u8>)>)
    requires
        forall|i: int|
            0 <= i < vars.len() ==> transportable(#[trigger] vars[i].0, vars[i].1),
    ensures
        assignments(lines(env_lines(vars))) == vars,
    decreases vars.len(),
{
    if vars.len() == 0 {
        assert(lines(env_lines(vars)) =~= Seq::empty());
        assert(assignments(lines(env_lines(vars))) =~= vars);
    } else {
        let (key, value) = vars[0];
        let rest = vars.drop_first();
        assert(transportable(vars[0].0, vars[0].1));
        assert forall|i: int| 0 <= i < rest.len() implies transportable(
            #[trigger] rest[i].0,
            rest[i].1,
        ) by {
            assert(rest[i] == vars[i + 1]);
            assert(transportable(vars[i + 1].0, vars[i + 1].1));
        }
        lines_are_read_back(rest);
        lemma_env_lines_first(vars);

        let line = key + seq![0x3du8] + value;
        assert(!line.contains(0x0a)) by {
            if line.contains(0x0a) {
                let j = choose|j: int| 0 <= j < line.len() && line[j] == 0x0a;
                if j < key.len() {
                    assert(key[j] == 0x0a);
                } else if j > key.len() {
                    assert(value[j - key.len() - 1] == 0x0a);
                }
            }
        }
        assert(env_lines(vars) =~= line + seq![0x0au8] + env_lines(rest));
        lemma_lines_cons(line, env_lines(rest));
        assert(without_cr(line) == line) by {
            if value.len() > 0 {
                assert(line.last() == value.last());
                if value.last() == 0x0d {
                    assert(value.drop_last().len() < value.len());
                }
            } else {
                assert(line.last() == 0x3d);
            }
        }
        let n = key.len() as int;
        assert forall|j: int| 0 <= j < n implies line[j] != 0x3d by {
            assert(line[j] == key[j]);
            assert(key.contains(key[j]));
        }
        lemma_first_index(line, 0x3d, n);
        assert(line.take(n) =~= key);
        assert(line.skip(n + 1) =~= value);
        let all = lines(env_lines(vars));
        assert(all[0] == line);
        assert(all.drop_first() =~= lines(env_lines(rest)));
        assert(assignments(all) =~= vars);
    }
}

/// What [`load_env_vars`] makes of the payload that [`build_env_content`]
/// writes for an environment is that environment, provided that each
/// variable survives the transport.
pub proof fn guest_gets_env(env: Map<Seq<u8>, Seq<u8>>)
    requires
        env.dom().finite(),
        forall|key: Seq<u8>| #[trigger] env.dom().contains(key) ==> transportable(key, env[key]),
    ensures
        env_map(assignments(lines(env_payload(env)))) == env,
{
    let vars = lemma_listing_exists(env);
    payload_of_listing(vars, env);
    assert forall|i: int| 0 <= i < vars.len() implies transportable(
        #[trigger] vars[i].0,
        vars[i].1,
    ) by {
        lemma_ascending_value(vars, i);
    }
    lines_are_read_back(vars);
}

/// An environment that results from setting variables is finite.
proof fn lemma_env_map_finite(vars: Seq<(Seq<u8>, Seq<u8>)>)
    ensures
        env_map(vars).dom().finite(),
    decreases vars.len(),
{
    if vars.len() > 0 {
        lemma_env_map_finite(vars.drop_last());
    }
}

/// What the flags and the host's environment ask for is what the guest ends
/// up with: loading the payload that is built for them sets the environment
/// [`guest_env`], provided that each of its variables survives the transport.
pub proof fn environment_reaches_guest(
    flags: Seq<Seq<u8>>,
    all_envs: bool,
    host: Seq<(Seq<u8>, Seq<u8>)>,
)
    requires
        forall|key: Seq<u8>| #[trigger]
            guest_env(flags, all_envs, env_map(host)).dom().contains(key) ==> transportable(
                key,
                guest_env(flags, all_envs, env_map(host))[key],
            ),
    ensures
        env_map(
            assignments(lines(env_payload(guest_env(flags, all_envs, env_map(host))))),
        ) == guest_env(flags, all_envs, env_map(host)),
{
    lemma_env_map_finite(host);
    guest_env_is_finite(flags, all_envs, env_map(host));
    guest_gets_env(guest_env(flags, all_envs, env_map(host)));
}

/// An `--env` flag is split at its first `=`: what precedes it is the name, and
/// all that follows is the value. A flag without one assigns nothing.
pub proof fn flags_split_at_equals(key: Seq<u8>, value: Seq<u8>)
    requires
        forall|i: int| 0 <= i < key.len() ==> key[i] != 0x3d,
    ensures
        assignment(key + seq![0x3du8] + value) == Some((key, value)),
        assignment(key) is None,
{
    let flag = key + seq![0x3du8] + value;
    assert forall|j: int| 0 <= j < key.len() implies flag[j] != 0x3d by {
        assert(flag[j] == key[j]);
    }
    lemma_first_index(flag, 0x3d, key.len() as int);
    assert(flag.take(key.len() as int) =~= key);
    assert(flag.skip(key.len() as int + 1) =~= value);
    lemma_first_index(key, 0x3d, key.len() as int);
}

/// A flag is about a variable just if it is the name of it, or starts with its
/// name and a `=`. No flag is about a variable with a `=` in its name.
pub proof fn flags_start_with_names(flag: Seq<u8>, key: Seq<u8>)
    ensures
        key.contains(0x3d) ==> !names(flag, key),
        !key.contains(0x3d) ==> (names(flag, key) <==> flag == key || (key
            + seq![0x3du8]).is_prefix_of(flag)),
{
    lemma_first_index_at(flag, 0x3d);
    let at = first_index(flag, 0x3d) as int;
    if key.contains(0x3d) {
        let i = choose|i: int| 0 <= i < key.len() && key[i] == 0x3d;
        if at < flag.len() && flag.take(at) == key {
            assert(flag[i] == key[i]);
        }
    } else {
        let start = key + seq![0x3du8];
        if start.is_prefix_of(flag) {
            let n = key.len() as int;
            assert(start =~= flag.subrange(0, start.len() as int));
            assert forall|j: int| 0 <= j < n implies flag[j] != 0x3d by {
                assert(start[j] == key[j]);
                assert(flag[j] == start[j]);
                assert(key.contains(key[j]));
            }
            assert(flag[n] == start[n]);
            lemma_first_index(flag, 0x3d, n);
            assert(flag.take(n) =~= key);
        }
        if at < flag.len() && flag.take(at) == key {
            assert(start =~= flag.subrange(0, start.len() as int));
        }
    }
}

/// With `--all-envs`, a variable that no flag is about reaches the guest just if
/// the host has it and its name starts neither with `VMSH_` nor with `KRUN_`,
/// whatever else its name is. It has the value that it has on the host. Without
/// `--all-envs`, no such variable reaches the guest.
pub proof fn all_envs_forwards_the_rest(
    flags: Seq<Seq<u8>>,
    host: Map<Seq<u8>, Seq<u8>>,
    key: Seq<u8>,
)
    requires
        key.contains(0x3d) || forall|i: int|
            0 <= i < flags.len() ==> #[trigger] flags[i] != key && !(key
                + seq![0x3du8]).is_prefix_of(flags[i]),
    ensures
        guest_env(flags, true, host).dom().contains(key) <==> host.dom().contains(key) && !(
        key.len() >= 5 && key[0] == 0x56 && key[1] == 0x4d && key[2] == 0x53 && key[3] == 0x48
            && key[4] == 0x5f) && !(key.len() >= 5 && key[0] == 0x4b && key[1] == 0x52 && key[2]
            == 0x55 && key[3] == 0x4e && key[4] == 0x5f),
        guest_env(flags, true, host).dom().contains(key) ==> guest_env(flags, true, host)[key]
            == host[key],
        !guest_env(flags, false, host).dom().contains(key),
{
    assert forall|i: int| 0 <= i < flags.len() implies !names(#[trigger] flags[i], key) by {
        flags_start_with_names(flags[i], key);
    }
    unnamed_variables_are_forwarded(flags, true, host, key);
    unnamed_variables_are_forwarded(flags, false, host, key);
    let (vmsh, krun) = (VMSH_PREFIX@, KRUN_PREFIX@);
    assert(vmsh =~= seq![0x56u8, 0x4d, 0x53, 0x48, 0x5f]);
    assert(krun =~= seq![0x4bu8, 0x52, 0x55, 0x4e, 0x5f]);
    if key.len() >= 5 {
        let start = key.subrange(0, 5);
        assert(start[0] == key[0] && start[1] == key[1] && start[2] == key[2]);
        assert(start[3] == key[3] && start[4] == key[4]);
        assert(vmsh == start <==> vmsh =~= start);
        assert(krun == start <==> krun =~= start);
    }
}

/// `--env=KEY=VALUE` hands the guest the variable with just that value, whatever
/// the host has and whatever flags precede it, as long as no later flag is about
/// the variable.
pub proof fn explicit_values_are_handed_over(
    before: Seq<Seq<u8>>,
    after: Seq<Seq<u8>>,
    all_envs: bool,
    host: Map<Seq<u8>, Seq<u8>>,
    key: Seq<u8>,
    value: Seq<u8>,
)
    requires
        forall|i: int| 0 <= i < key.len() ==> key[i] != 0x3d,
        forall|i: int|
            0 <= i < after.len() ==> #[trigger] after[i] != key && !(key
                + seq![0x3du8]).is_prefix_of(after[i]),
    ensures
        ({
            let flags = before + seq![key + seq![0x3du8] + value] + after;
            &&& guest_env(flags, all_envs, host).dom().contains(key)
            &&& guest_env(flags, all_envs, host)[key] == value
        }),
{
    let flag = key + seq![0x3du8] + value;
    let flags = before + seq![flag] + after;
    let at = before.len() as int;
    assert(!key.contains(0x3d));
    flags_split_at_equals(key, value);
    assert(flags[at] == flag);
    assert forall|i: int| at < i < flags.len() implies !names(#[trigger] flags[i], key) by {
        assert(flags[i] == after[i - at - 1]);
        flags_start_with_names(flags[i], key);
    }
    last_flag_decides(flags, all_envs, host, at, key);
}

/// `--env=KEY` hands the guest the variable with the value that it has on the
/// host, whatever flags precede it, as long as no later flag is about the
/// variable. It does so for reserved variables, too.
pub proof fn host_values_are_handed_over(
    before: Seq<Seq<u8>>,
    after: Seq<Seq<u8>>,
    all_envs: bool,
    host: Map<Seq<u8>, Seq<u8>>,
    key: Seq<u8>,
)
    requires
        host.dom().contains(key),
        forall|i: int| 0 <= i < key.len() ==> key[i] != 0x3d,
        forall|i: int|
            0 <= i < after.len() ==> #[trigger] after[i] != key && !(key
                + seq![0x3du8]).is_prefix_of(after[i]),
    ensures
        ({
            let flags = before + seq![key] + after;
            &&& guest_env(flags, all_envs, host).dom().contains(key)
            &&& guest_env(flags, all_envs, host)[key] == host[key]
        }),
{
    let flags = before + seq![key] + after;
    let at = before.len() as int;
    assert(!key.contains(0x3d));
    flags_split_at_equals(key, Seq::empty());
    assert(flags[at] == key);
    assert forall|i: int| at < i < flags.len() implies !names(#[trigger] flags[i], key) by {
        assert(flags[i] == after[i - at - 1]);
        flags_start_with_names(flags[i], key);
    }
    last_flag_decides(flags, all_envs, host, at, key);
}

/// `--env=KEY` changes nothing if the host does not have the variable, and no
/// flag changes a variable that it is not about.
pub proof fn other_variables_are_kept(
    flags: Seq<Seq<u8>>,
    flag: Seq<u8>,
    all_envs: bool,
    host: Map<Seq<u8>, Seq<u8>>,
    key: Seq<u8>,
)
    requires
        if flag == key {
            !host.dom().contains(key) && forall|i: int| 0 <= i < key.len() ==> key[i] != 0x3d
        } else {
            key.contains(0x3d) || !(key + seq![0x3du8]).is_prefix_of(flag)
        },
    ensures
        guest_env(flags.push(flag), all_envs, host).dom().contains(key) <==> guest_env(
            flags,
            all_envs,
            host,
        ).dom().contains(key),
        guest_env(flags.push(flag), all_envs, host)[key] == guest_env(flags, all_envs, host)[key],
{
    assert(flags.push(flag).drop_last() =~= flags);
    flags_start_with_names(flag, key);
    if flag == key {
        flags_split_at_equals(key, Seq::empty());
    }
}

/// An environment is what the variables say that are set one after the other:
/// each one gets its value, and the others keep theirs.
pub proof fn settings_add_up(vars: Seq<(Seq<u8>, Seq<u8>)>, key: Seq<u8>, value: Seq<u8>)
    ensures
        env_map(Seq::empty()) == Map::<Seq<u8>, Seq<u8>>::empty(),
        env_map(vars.push((key, value))) == env_map(vars).insert(key, value),
{
    assert(vars.push((key, value)).drop_last() =~= vars);
}

/// Names and values are taken as they are, and so are flags.
pub proof fn bytes_are_taken_as_they_are(
    vars: Seq<(Vec<u8>, Vec<u8>)>,
    args: Seq<String>,
    i: int,
)
    ensures
        pairs(vars).len() == vars.len(),
        0 <= i < vars.len() ==> pairs(vars)[i] == (vars[i].0@, vars[i].1@),
        flag_bytes(args).len() == args.len(),
        0 <= i < args.len() ==> flag_bytes(args)[i] == encode_utf8(args[i]@),
{
}

/// The payload for an environment with one more variable, whose name comes after
/// all others, is the payload for the others and the line `KEY=VALUE`. There is
/// no payload for the empty environment. So every variable has one line, in the
/// order of the names.
pub proof fn payload_grows_by_lines(
    env: Map<Seq<u8>, Seq<u8>>,
    key: Seq<u8>,
    value: Seq<u8>,
)
    requires
        env.dom().finite(),
        forall|other: Seq<u8>| #[trigger] env.dom().contains(other) ==> bytes_lt(other, key),
    ensures
        env_payload(Map::empty()) == Seq::<u8>::empty(),
        env_payload(env.insert(key, value)) == env_payload(env) + key + seq![0x3du8] + value
            + seq![0x0au8],
{
    payload_of_listing(Seq::empty(), Map::empty());
    let vars = lemma_listing_exists(env);
    payload_of_listing(vars, env);
    assert forall|i: int| 0 <= i < vars.len() implies bytes_lt(#[trigger] vars[i].0, key) by {
        lemma_ascending_value(vars, i);
    }
    lemma_insert(vars, vars.len() as int, key, value);
    let all = vars.insert(vars.len() as int, (key, value));
    assert(all.drop_last() =~= vars);
    payload_of_listing(all, env.insert(key, value));
    assert(env_lines(all) =~= env_lines(vars) + key + seq![0x3du8] + value + seq![0x0au8]);
}

/// What the guest makes of a line, by its bytes: up to the first `=` is a name,
/// and the rest is the value; a line without one is skipped. A carriage return
/// in front of the line feed belongs to neither. What follows is read in the
/// same way.
pub proof fn guest_reads_lines(key: Seq<u8>, value: Seq<u8>, rest: Seq<u8>)
    requires
        forall|i: int| 0 <= i < key.len() ==> key[i] != 0x3d && key[i] != 0x0a,
        forall|i: int| 0 <= i < value.len() ==> value[i] != 0x0a,
        value.len() == 0 || value.last() != 0x0d,
    ensures
        assignments(lines(key + seq![0x3du8] + value + seq![0x0au8] + rest)) == seq![(key, value)]
            + assignments(lines(rest)),
        assignments(lines(key + seq![0x3du8] + value + seq![0x0du8, 0x0au8] + rest)) == seq![
            (key, value),
        ] + assignments(lines(rest)),
        assignments(lines(key + seq![0x3du8] + value)) == seq![(key, value)],
        assignments(lines(key + seq![0x0au8] + rest)) == assignments(lines(rest)),
        assignments(lines(Seq::empty())).len() == 0,
{
    flags_split_at_equals(key, value);
    let line = key + seq![0x3du8] + value;
    assert forall|i: int| 0 <= i < line.len() implies line[i] != 0x0a by {
        if i < key.len() {
            assert(line[i] == key[i]);
        } else if i > key.len() {
            assert(line[i] == value[i - key.len() - 1]);
        }
    }
    line_ends(line, rest);
    assert(line.last() != 0x0d) by {
        if value.len() > 0 {
            assert(line.last() == value.last());
        }
    }
    let all = seq![line] + lines(rest);
    assert(all.drop_first() =~= lines(rest));
    assert(seq![line].drop_first() =~= Seq::<Seq<u8>>::empty());
    assert(assignments(Seq::<Seq<u8>>::empty()) =~= Seq::empty());
    assert(seq![line][0] == line);
    assert(assignments(seq![line]) =~= seq![(key, value)] + assignments(seq![line].drop_first()));
    assert(assignments(seq![line]) =~= seq![(key, value)]);
    lemma_lines_cons(key, rest);
    let short = without_cr(key);
    assert(assignment(short) is None) by {
        assert forall|i: int| 0 <= i < short.len() implies short[i] != 0x3d by {
            assert(short[i] == key[i]);
        }
        flags_split_at_equals(short, value);
    }
    let skipped = seq![short] + lines(rest);
    assert(!key.contains(0x0a));
    assert(skipped.drop_first() =~= lines(rest));
    line_ends(Seq::empty(), rest);
    assert(lines(Seq::<u8>::empty()) =~= Seq::empty());
}

/// If reading is interrupted, what follows the last line feed is dropped, and
/// nothing else is.
pub proof fn whole_lines_are_kept(content: Seq<u8>, partial: Seq<u8>)
    requires
        content.len() == 0 || content.last() == 0x0a,
        forall|i: int| 0 <= i < partial.len() ==> partial[i] != 0x0a,
    ensures
        whole_lines(content + partial) == content,
    decreases partial.len(),
{
    let all = content + partial;
    if partial.len() > 0 {
        let shorter = partial.drop_last();
        assert forall|i: int| 0 <= i < shorter.len() implies shorter[i] != 0x0a by {
            assert(shorter[i] == partial[i]);
        }
        whole_lines_are_kept(content, shorter);
        assert(all.drop_last() =~= content + shorter);
        assert(all.last() == partial.last());
    } else {
        assert(all =~= content);
    }
}

/// What the guest ends up with, by the bytes of names and values: just the
/// environment that was asked for, if no name has a `=` or a line feed and no
/// value has a line feed or ends in a carriage return.
pub proof fn environment_arrives(
    flags: Seq<Seq<u8>>,
    all_envs: bool,
    host: Seq<(Seq<u8>, Seq<u8>)>,
)
    requires
        forall|key: Seq<u8>| #[trigger]
            guest_env(flags, all_envs, env_map(host)).dom().contains(key) ==> {
                let value = guest_env(flags, all_envs, env_map(host))[key];
                &&& forall|i: int| 0 <= i < key.len() ==> key[i] != 0x3d && key[i] != 0x0a
                &&& forall|i: int| 0 <= i < value.len() ==> value[i] != 0x0a
                &&& value.len() == 0 || value.last() != 0x0d
            },
    ensures
        env_map(
            assignments(lines(env_payload(guest_env(flags, all_envs, env_map(host))))),
        ) == guest_env(flags, all_envs, env_map(host)),
{
    environment_reaches_guest(flags, all_envs, host);
}

} // verus!
