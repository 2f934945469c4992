//! Decisions of the desktop launcher: which store entry provides the dynamic
//! linker and libraries, the conductor's settings and configuration text, and
//! how long to keep waiting for the conductor.
//! Names are the raw bytes of directory names, compared byte by byte as
//! `str` orders them.
use vstd::prelude::*;
use vstd::string::StringExecFns;

verus! {

/// Byte-wise lexicographic order: `a` comes no later than `b`.
pub open spec fn lex_le(a: Seq<u8>, b: Seq<u8>) -> bool
    decreases a.len(),
{
    if a.len() == 0 {
        true
    } else if b.len() == 0 {
        false
    } else if a[0] < b[0] {
        true
    } else if a[0] > b[0] {
        false
    } else {
        lex_le(a.drop_first(), b.drop_first())
    }
}

/// Every name comes no later than itself.
pub proof fn lemma_lex_le_reflexive(a: Seq<u8>)
    ensures
        lex_le(a, a),
    decreases a.len(),
{
    if a.len() > 0 {
        lemma_lex_le_reflexive(a.drop_first());
    }
}

/// Any two names are ordered one way or the other.
pub proof fn lemma_lex_le_total(a: Seq<u8>, b: Seq<u8>)
    ensures
        lex_le(a, b) || lex_le(b, a),
    decreases a.len(),
{
    if a.len() > 0 && b.len() > 0 && a[0] == b[0] {
        lemma_lex_le_total(a.drop_first(), b.drop_first());
    }
}

/// The order is transitive.
pub proof fn lemma_lex_le_transitive(a: Seq<u8>, b: Seq<u8>, c: Seq<u8>)
    requires
        lex_le(a, b),
        lex_le(b, c),
    ensures
        lex_le(a, c),
    decreases a.len(),
{
    if a.len() > 0 && b.len() > 0 && c.len() > 0 && a[0] == b[0] && b[0] == c[0] {
        lemma_lex_le_transitive(a.drop_first(), b.drop_first(), c.drop_first());
    }
}

/// Two names that each come no later than the other are equal.
pub proof fn lemma_lex_le_antisymmetric(a: Seq<u8>, b: Seq<u8>)
    requires
        lex_le(a, b),
        lex_le(b, a),
    ensures
        a == b,
    decreases a.len(),
{
    if a.len() > 0 {
        lemma_lex_le_antisymmetric(a.drop_first(), b.drop_first());
        assert(a =~= seq![a[0]] + a.drop_first());
        assert(b =~= seq![b[0]] + b.drop_first());
    } else {
        assert(b.len() == 0);
        assert(a =~= b);
    }
}

proof fn lemma_lex_le_skip(a: Seq<u8>, b: Seq<u8>, i: int)
    requires
        0 <= i < a.len(),
        i < b.len(),
        a[i] == b[i],
    ensures
        lex_le(a.skip(i), b.skip(i)) == lex_le(a.skip(i + 1), b.skip(i + 1)),
{
    assert(a.skip(i).drop_first() =~= a.skip(i + 1));
    assert(b.skip(i).drop_first() =~= b.skip(i + 1));
}

/// Whether `a` comes no later than `b` byte by byte.
pub fn lex_le_bytes(a: &Vec<u8>, b: &Vec<u8>) -> (r: bool)
    ensures
        r == lex_le(a@, b@),
{
    let mut i: usize = 0;
    assert(a@.skip(0) =~= a@);
    assert(b@.skip(0) =~= b@);
    while i < a.len() && i < b.len()
        invariant
            i <= a.len(),
            i <= b.len(),
            lex_le(a@, b@) == lex_le(a@.skip(i as int), b@.skip(i as int)),
        decreases a.len() - i,
    {
        if a[i] < b[i] {
            return true;
        }
        if a[i] > b[i] {
            return false;
        }
        proof {
            lemma_lex_le_skip(a@, b@, i as int);
        }
        i = i + 1;
    }
    i == a.len()
}

/// `name` starts with `prefix` and ends with `suffix`.
pub open spec fn has_affixes(name: Seq<u8>, prefix: Seq<u8>, suffix: Seq<u8>) -> bool {
    &&& prefix.len() <= name.len()
    &&& suffix.len() <= name.len()
    &&& name.take(prefix.len() as int) == prefix
    &&& name.skip(name.len() - suffix.len()) == suffix
}

/// Whether `name` starts with `prefix` and ends with `suffix`.
pub fn has_affixes_bytes(name: &Vec<u8>, prefix: &Vec<u8>, suffix: &Vec<u8>) -> (r: bool)
    ensures
        r == has_affixes(name@, prefix@, suffix@),
{
    if prefix.len() > name.len() || suffix.len() > name.len() {
        return false;
    }
    let mut i: usize = 0;
    while i < prefix.len()
        invariant
            i <= prefix.len(),
            prefix.len() <= name.len(),
            forall|j: int| 0 <= j < i ==> name@[j] == prefix@[j],
        decreases prefix.len() - i,
    {
        if name[i] != prefix[i] {
            assert(name@.take(prefix.len() as int)[i as int] != prefix@[i as int]);
            return false;
        }
        i = i + 1;
    }
    assert(name@.take(prefix.len() as int) =~= prefix@);
    let start = name.len() - suffix.len();
    let mut k: usize = 0;
    while k < suffix.len()
        invariant
            k <= suffix.len(),
            start == name.len() - suffix.len(),
            forall|j: int| 0 <= j < k ==> name@[start + j] == suffix@[j],
        decreases suffix.len() - k,
    {
        if name[start + k] != suffix[k] {
            assert(name@.skip(start as int)[k as int] != suffix@[k as int]);
            return false;
        }
        k = k + 1;
    }
    assert(name@.skip(start as int) =~= suffix@);
    true
}

/// `i` is the position of the greatest name with the affixes; among equal
/// greatest names, the last one.
pub open spec fn is_latest_entry(names: Seq<Vec<u8>>, prefix: Seq<u8>, suffix: Seq<u8>, i: int) -> bool {
    &&& 0 <= i < names.len()
    &&& has_affixes(names[i]@, prefix, suffix)
    &&& forall|j: int|
        0 <= j < names.len() && has_affixes(#[trigger] names[j]@, prefix, suffix) ==> lex_le(
            names[j]@,
            names[i]@,
        )
    &&& forall|j: int|
        i < j < names.len() && has_affixes(#[trigger] names[j]@, prefix, suffix) ==> !lex_le(
            names[i]@,
            names[j]@,
        )
}

/// There is only one such position.
pub proof fn lemma_latest_entry_unique(names: Seq<Vec<u8>>, prefix: Seq<u8>, suffix: Seq<u8>, i: int, k: int)
    requires
        is_latest_entry(names, prefix, suffix, i),
        is_latest_entry(names, prefix, suffix, k),
    ensures
        i == k,
{
    if i < k {
        assert(lex_le(names[i]@, names[k]@));
    } else if k < i {
        assert(lex_le(names[k]@, names[i]@));
    }
}

/// Among the names of a store's entries, the greatest one (byte-wise) that
/// starts with `prefix` and ends with `suffix`, the last one among equals: the
/// newest version of a package by its name.
pub fn latest_store_entry(names: &Vec<Vec<u8>>, prefix: &Vec<u8>, suffix: &Vec<u8>) -> (r: Option<usize>)
    ensures
        match r {
            Some(i) => is_latest_entry(names@, prefix@, suffix@, i as int),
            None => forall|j: int| 0 <= j < names@.len() ==> !has_affixes(#[trigger] names@[j]@, prefix@, suffix@),
        },
{
    let mut best: Option<usize> = None;
    let mut k: usize = 0;
    while k < names.len()
        invariant
            k <= names.len(),
            match best {
                Some(b) => {
                    &&& b < k
                    &&& has_affixes(names@[b as int]@, prefix@, suffix@)
                    &&& forall|j: int|
                        0 <= j < k && has_affixes(#[trigger] names@[j]@, prefix@, suffix@) ==> lex_le(
                            names@[j]@,
                            names@[b as int]@,
                        )
                    &&& forall|j: int|
                        b < j < k && has_affixes(#[trigger] names@[j]@, prefix@, suffix@) ==> !lex_le(
                            names@[b as int]@,
                            names@[j]@,
                        )
                },
                None => forall|j: int| 0 <= j < k ==> !has_affixes(#[trigger] names@[j]@, prefix@, suffix@),
            },
        decreases names.len() - k,
    {
        if has_affixes_bytes(&names[k], prefix, suffix) {
            match best {
                None => {
                    proof {
                        lemma_lex_le_reflexive(names@[k as int]@);
                    }
                    best = Some(k);
                },
                Some(b) => {
                    if lex_le_bytes(&names[b], &names[k]) {
                        proof {
                            lemma_lex_le_reflexive(names@[k as int]@);
                            assert forall|j: int|
                                0 <= j < k + 1 && has_affixes(#[trigger] names@[j]@, prefix@, suffix@) implies lex_le(
                                names@[j]@,
                                names@[k as int]@,
                            ) by {
                                if j < k {
                                    lemma_lex_le_transitive(names@[j]@, names@[b as int]@, names@[k as int]@);
                                }
                            }
                        }
                        best = Some(k);
                    } else {
                        proof {
                            lemma_lex_le_total(names@[b as int]@, names@[k as int]@);
                        }
                    }
                },
            }
        }
        k = k + 1;
    }
    best
}

/// What the launcher does next while it waits for the conductor.
#[derive(Debug, Clone, Copy, PartialEq, Eq)]
pub enum WaitStep {
    /// The admin port accepts connections: the conductor is ready.
    Ready,
    /// The time allowed has run out.
    TimedOut,
    /// Pause, then try to connect again.
    Retry,
}

/// One round of waiting for the conductor: a connection means it is ready;
/// without one, the wait ends once `elapsed_secs` reaches `timeout_secs`, and
/// otherwise goes on.
pub fn conductor_wait_step(connected: bool, elapsed_secs: u64, timeout_secs: u64) -> (r: WaitStep)
    ensures
        connected ==> r == WaitStep::Ready,
        !connected && elapsed_secs >= timeout_secs ==> r == WaitStep::TimedOut,
        !connected && elapsed_secs < timeout_secs ==> r == WaitStep::Retry,
{
    if connected {
        WaitStep::Ready
    } else if elapsed_secs >= timeout_secs {
        WaitStep::TimedOut
    } else {
        WaitStep::Retry
    }
}

/// A conductor setting: the value set in the environment, else the one built
/// into the binary, else the default.
pub fn setting(from_env: Option<String>, built_in: Option<&str>, default: &str) -> (r: String)
    ensures
        r@ == match from_env {
            Some(v) => v@,
            None => match built_in {
                Some(b) => b@,
                None => default@,
            },
        },
{
    match from_env {
        Some(v) => v,
        None => match built_in {
            Some(b) => String::from_str(b),
            None => String::from_str(default),
        },
    }
}

/// The conductor's configuration text for a data directory and the three
/// network endpoints.
pub open spec fn conductor_config_text(
    data_dir: Seq<char>,
    bootstrap_url: Seq<char>,
    signal_url: Seq<char>,
    relay_url: Seq<char>,
) -> Seq<char> {
    "---\ndata_root_path: "@ + data_dir
        + "\nkeystore:\n  type: lair_server_in_proc\nadmin_interfaces:\n  - driver:\n      type: websocket\n      port: 44121\n      allowed_origins: \"*\"\nnetwork:\n  bootstrap_url: \""@
        + bootstrap_url + "\"\n  signal_url: \""@ + signal_url + "\"\n  relay_url: \""@ + relay_url
        + "\"\n  signal_allow_plain_text: true\n  danger_allow_non_tls_relay: true\ndb_sync_strategy: Fast\n"@
}

/// Writes the conductor's configuration: data under `data_dir`, the admin
/// websocket on port 44121, and the given bootstrap, signal and relay servers.
pub fn conductor_config(data_dir: &str, bootstrap_url: &str, signal_url: &str, relay_url: &str) -> (r:
    String)
    ensures
        r@ == conductor_config_text(data_dir@, bootstrap_url@, signal_url@, relay_url@),
{
    let mut c = String::from_str("---\ndata_root_path: ");
    c.append(data_dir);
    c.append(
        "\nkeystore:\n  type: lair_server_in_proc\nadmin_interfaces:\n  - driver:\n      type: websocket\n      port: 44121\n      allowed_origins: \"*\"\nnetwork:\n  bootstrap_url: \"",
    );
    c.append(bootstrap_url);
    c.append("\"\n  signal_url: \"");
    c.append(signal_url);
    c.append("\"\n  relay_url: \"");
    c.append(relay_url);
    c.append("\"\n  signal_allow_plain_text: true\n  danger_allow_non_tls_relay: true\ndb_sync_strategy: Fast\n");
    c
}

} // verus!
