//! Plain-value model of the host data that the rules read: hashes, links,
//! validation outcomes. Agent keys and hashes are their raw bytes.
use vstd::prelude::*;
use vstd::string::StringExecFns;

verus! {

/// Outcome of an integrity check.
#[derive(Debug, Clone, PartialEq, Eq)]
pub enum ValidateCallbackResult {
    Valid,
    Invalid(String),
}

/// Why an integrity check could not be carried out at all.
#[derive(Debug, Clone, PartialEq, Eq)]
pub enum ValidationFailure {
    /// A record that the op depends on is not (yet) held as valid.
    UnresolvedRecord(Vec<u8>),
    /// A link base that must be an agent key is some other kind of hash.
    BaseNotAgent,
    /// A link base that must be an action hash is some other kind of hash.
    BaseNotAction,
    /// A link target that must be an action hash is some other kind of hash.
    TargetNotAction,
}

/// The three kinds of hash a link can point from or to.
#[derive(Debug, Clone, Copy, PartialEq, Eq, Structural)]
pub enum LinkableKind {
    /// An entry hash; agent keys are entry hashes.
    Entry,
    Action,
    External,
}

/// A linkable hash: its kind and its raw bytes.
#[derive(Debug, Clone, PartialEq, Eq)]
pub struct LinkableHash {
    pub kind: LinkableKind,
    pub bytes: Vec<u8>,
}

/// What the rules read of a link: its author, its target and when it was made
/// (microseconds since the epoch).
#[derive(Debug, Clone, PartialEq, Eq)]
pub struct LinkInfo {
    pub author: Vec<u8>,
    pub target: LinkableHash,
    pub timestamp: i64,
}

/// Spec view of a `Vec<Vec<u8>>` as a sequence of byte sequences.
pub open spec fn bytes_seq(v: Seq<Vec<u8>>) -> Seq<Seq<u8>> {
    v.map_values(|b: Vec<u8>| b@)
}

/// Byte-wise equality of two keys or hashes.
pub fn bytes_equal(a: &Vec<u8>, b: &Vec<u8>) -> (r: bool)
    ensures
        r == (a@ == b@),
{
    if a.len() != b.len() {
        return false;
    }
    let mut i: usize = 0;
    while i < a.len()
        invariant
            a.len() == b.len(),
            i <= a.len(),
            forall|j: int| 0 <= j < i ==> a@[j] == b@[j],
        decreases a.len() - i,
    {
        if a[i] != b[i] {
            return false;
        }
        i = i + 1;
    }
    assert(a@ =~= b@);
    true
}

/// Whether `key` occurs (byte-wise) in `keys`.
pub fn contains_key(keys: &Vec<Vec<u8>>, key: &Vec<u8>) -> (r: bool)
    ensures
        r == bytes_seq(keys@).contains(key@),
{
    let mut i: usize = 0;
    while i < keys.len()
        invariant
            i <= keys.len(),
            forall|j: int| 0 <= j < i ==> keys@[j]@ != key@,
        decreases keys.len() - i,
    {
        if bytes_equal(&keys[i], key) {
            assert(bytes_seq(keys@)[i as int] == key@);
            return true;
        }
        i = i + 1;
    }
    proof {
        if bytes_seq(keys@).contains(key@) {
            let j = choose|j: int| 0 <= j < bytes_seq(keys@).len() && bytes_seq(keys@)[j] == key@;
            assert(keys@[j]@ == key@);
        }
    }
    false
}

/// The bytes of the targets of `links` that are of the given kind, in link order.
pub open spec fn targets_of_kind_spec(links: Seq<LinkInfo>, kind: LinkableKind) -> Seq<Seq<u8>>
    decreases links.len(),
{
    if links.len() == 0 {
        Seq::empty()
    } else {
        let rest = targets_of_kind_spec(links.drop_last(), kind);
        if links.last().target.kind == kind {
            rest.push(links.last().target.bytes@)
        } else {
            rest
        }
    }
}

/// A hash is among the kept targets exactly when some link points to it with
/// a target of the given kind.
pub proof fn law_targets_of_kind(links: Seq<LinkInfo>, kind: LinkableKind)
    ensures
        forall|x: Seq<u8>|
            #[trigger] targets_of_kind_spec(links, kind).contains(x) <==> exists|i: int|
                0 <= i < links.len() && links[i].target.kind == kind && links[i].target.bytes@ == x,
    decreases links.len(),
{
    if links.len() > 0 {
        let rest = links.drop_last();
        law_targets_of_kind(rest, kind);
        let prev = targets_of_kind_spec(rest, kind);
        let last = links.last();
        assert forall|x: Seq<u8>| #[trigger] targets_of_kind_spec(links, kind).contains(x) <==> exists|i: int|
            0 <= i < links.len() && links[i].target.kind == kind && links[i].target.bytes@ == x by {
            if targets_of_kind_spec(links, kind).contains(x) {
                if prev.contains(x) {
                    let i = choose|i: int|
                        0 <= i < rest.len() && rest[i].target.kind == kind && rest[i].target.bytes@ == x;
                    assert(links[i] == rest[i]);
                } else {
                    assert(last.target.kind == kind);
                    let k = choose|k: int|
                        0 <= k < prev.push(last.target.bytes@).len() && prev.push(last.target.bytes@)[k] == x;
                    if k < prev.len() {
                        assert(prev[k] == x);
                    }
                    assert(links[links.len() - 1] == last);
                }
            }
            if exists|i: int| 0 <= i < links.len() && links[i].target.kind == kind && links[i].target.bytes@ == x {
                let i = choose|i: int|
                    0 <= i < links.len() && links[i].target.kind == kind && links[i].target.bytes@ == x;
                if i < links.len() - 1 {
                    assert(rest[i] == links[i]);
                    assert(prev.contains(x));
                    let k = choose|k: int| 0 <= k < prev.len() && prev[k] == x;
                    if last.target.kind == kind {
                        assert(prev.push(last.target.bytes@)[k] == x);
                    }
                } else {
                    assert(prev.push(last.target.bytes@)[prev.len() as int] == x);
                }
            }
        }
    }
}

/// Keeps the targets of `links` that are of the given kind: the action hashes a
/// lineage or index link points to, or the agent keys of validator links.
pub fn targets_of_kind(links: &Vec<LinkInfo>, kind: LinkableKind) -> (r: Vec<Vec<u8>>)
    ensures
        bytes_seq(r@) == targets_of_kind_spec(links@, kind),
        forall|x: Seq<u8>|
            #[trigger] bytes_seq(r@).contains(x) <==> exists|i: int|
                0 <= i < links@.len() && links@[i].target.kind == kind && links@[i].target.bytes@ == x,
{
    proof {
        law_targets_of_kind(links@, kind);
    }
    let mut r: Vec<Vec<u8>> = Vec::new();
    let mut i: usize = 0;
    while i < links.len()
        invariant
            i <= links.len(),
            bytes_seq(r@) == targets_of_kind_spec(links@.take(i as int), kind),
        decreases links.len() - i,
    {
        assert(links@.take(i as int + 1).drop_last() =~= links@.take(i as int));
        if links[i].target.kind == kind {
            r.push(links[i].target.bytes.clone());
        }
        assert(bytes_seq(r@) =~= targets_of_kind_spec(links@.take(i as int + 1), kind));
        i = i + 1;
    }
    assert(links@.take(links.len() as int) =~= links@);
    r
}


/// The keys of `s`, each once, where it first occurs.
pub open spec fn first_occurrences(s: Seq<Seq<u8>>) -> Seq<Seq<u8>>
    decreases s.len(),
{
    if s.len() == 0 {
        Seq::empty()
    } else {
        let rest = first_occurrences(s.drop_last());
        if rest.contains(s.last()) {
            rest
        } else {
            rest.push(s.last())
        }
    }
}

/// Keeping first occurrences keeps every key once and no other key.
pub proof fn law_first_occurrences(s: Seq<Seq<u8>>)
    ensures
        first_occurrences(s).no_duplicates(),
        forall|x: Seq<u8>| #[trigger] first_occurrences(s).contains(x) <==> s.contains(x),
    decreases s.len(),
{
    if s.len() > 0 {
        let rest = s.drop_last();
        law_first_occurrences(rest);
        let p = first_occurrences(rest);
        assert forall|x: Seq<u8>| #[trigger] first_occurrences(s).contains(x) <==> s.contains(x) by {
            if s.contains(x) {
                let i = choose|i: int| 0 <= i < s.len() && s[i] == x;
                if i < s.len() - 1 {
                    assert(rest[i] == x);
                    assert(rest.contains(x));
                    assert(p.contains(x));
                    if !p.contains(s.last()) {
                        let k = choose|k: int| 0 <= k < p.len() && p[k] == x;
                        assert(p.push(s.last())[k] == x);
                    }
                } else if !p.contains(s.last()) {
                    assert(p.push(s.last())[p.len() as int] == x);
                } else {
                    assert(p.contains(x));
                }
            }
            if first_occurrences(s).contains(x) {
                if p.contains(x) {
                    assert(rest.contains(x));
                    let i = choose|i: int| 0 <= i < rest.len() && rest[i] == x;
                    assert(s[i] == x);
                } else {
                    let k = choose|k: int| 0 <= k < p.push(s.last()).len() && p.push(s.last())[k] == x;
                    if k < p.len() {
                        assert(p[k] == x);
                    }
                    assert(s[s.len() - 1] == x);
                }
            }
        }
    }
}

/// Drops repeated keys, keeping each where it first occurs: a transaction
/// linked twice from the same agent is read once.
pub fn distinct_keys(keys: &Vec<Vec<u8>>) -> (r: Vec<Vec<u8>>)
    ensures
        bytes_seq(r@) == first_occurrences(bytes_seq(keys@)),
        bytes_seq(r@).no_duplicates(),
        forall|x: Seq<u8>| #[trigger] bytes_seq(r@).contains(x) <==> bytes_seq(keys@).contains(x),
{
    proof {
        law_first_occurrences(bytes_seq(keys@));
    }
    let mut r: Vec<Vec<u8>> = Vec::new();
    let mut i: usize = 0;
    while i < keys.len()
        invariant
            i <= keys.len(),
            bytes_seq(r@) == first_occurrences(bytes_seq(keys@.take(i as int))),
        decreases keys.len() - i,
    {
        let ghost prev = bytes_seq(keys@.take(i as int));
        proof {
            assert(bytes_seq(keys@.take(i as int + 1)).drop_last() =~= prev);
            assert(bytes_seq(keys@.take(i as int + 1)).last() == keys@[i as int]@);
        }
        if !contains_key(&r, &keys[i]) {
            r.push(keys[i].clone());
            assert(bytes_seq(r@) =~= first_occurrences(prev).push(keys@[i as int]@));
        }
        i = i + 1;
    }
    assert(keys@.take(keys.len() as int) =~= keys@);
    r
}

/// `r` accepts the op.
pub open spec fn accepts(r: ValidateCallbackResult) -> bool {
    r is Valid
}

/// `r` refuses the op with exactly the message `msg`.
pub open spec fn refuses_with(r: ValidateCallbackResult, msg: Seq<char>) -> bool {
    &&& r is Invalid
    &&& r->Invalid_0@ == msg
}

/// An `Invalid` outcome carrying the given message.
pub fn invalid(msg: &str) -> (r: ValidateCallbackResult)
    ensures
        refuses_with(r, msg@),
{
    ValidateCallbackResult::Invalid(String::from_str(msg))
}

/// What an agent's joining check sees of the action before its `CreateAgent`.
#[derive(Debug, Clone, PartialEq, Eq)]
pub enum PreviousAction {
    /// The agent validation package, with the membrane proof it carries.
    AgentValidationPkg { membrane_proof: Option<Vec<u8>> },
    /// Any other kind of action.
    Other,
}

/// The op a DNA's `validate` callback is asked about, with the app's entry type `E`
/// and link type `L` already decoded. Ops that the rules do not distinguish
/// (agent key entries, private entries, and so on) are `Other`.
#[derive(Debug, Clone, PartialEq, Eq)]
pub enum ValidationOp<E, L> {
    StoreEntryCreate(E),
    StoreEntryUpdate,
    RegisterUpdate,
    RegisterDelete,
    RegisterCreateLink { link_type: L, base: LinkableHash, target: LinkableHash },
    RegisterDeleteLink,
    StoreRecordCreate(E),
    StoreRecordUpdate,
    StoreRecordDelete,
    StoreRecordCreateLink { link_type: L, base: LinkableHash, target: LinkableHash },
    StoreRecordDeleteLink,
    CreateAgent { agent: Vec<u8>, previous: PreviousAction },
    Other,
}

/// The op would change or remove an entry that is already stored.
pub open spec fn is_entry_change<E, L>(op: ValidationOp<E, L>) -> bool {
    ||| op is StoreEntryUpdate
    ||| op is RegisterUpdate
    ||| op is RegisterDelete
    ||| op is StoreRecordUpdate
    ||| op is StoreRecordDelete
}

/// The op would remove a link.
pub open spec fn is_link_removal<E, L>(op: ValidationOp<E, L>) -> bool {
    op is RegisterDeleteLink || op is StoreRecordDeleteLink
}

/// Message for a `CreateAgent` op not preceded by the agent validation package.
pub open spec fn missing_pkg_message() -> Seq<char> {
    "The previous action for a `CreateAgent` action must be an `AgentValidationPkg`"@
}


/// `hash` is among the records the host holds as valid.
pub open spec fn is_held(held: Seq<Vec<u8>>, hash: Seq<u8>) -> bool {
    bytes_seq(held).contains(hash)
}

/// `r` is the failure for a record that is not held.
pub open spec fn unresolved(r: Result<ValidateCallbackResult, ValidationFailure>, hash: Seq<u8>) -> bool {
    &&& r is Err
    &&& r->Err_0 is UnresolvedRecord
    &&& r->Err_0->UnresolvedRecord_0@ == hash
}

/// Requires that the record `hash` is held as valid, as the host's
/// `must_get_valid_record` does; `held` lists the records the host returned.
pub fn require_record(held: &Vec<Vec<u8>>, hash: &Vec<u8>) -> (r: Result<(), ValidationFailure>)
    ensures
        is_held(held@, hash@) ==> r is Ok,
        !is_held(held@, hash@) ==> r is Err && r->Err_0 is UnresolvedRecord
            && r->Err_0->UnresolvedRecord_0@ == hash@,
{
    if contains_key(held, hash) {
        Ok(())
    } else {
        Err(ValidationFailure::UnresolvedRecord(hash.clone()))
    }
}

} // verus!
