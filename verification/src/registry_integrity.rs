//! Integrity rules of the registry DNA: manifests, attestations, warrants and
//! the caches derived from them are append-only; attestations and warrants need
//! the manifest they speak of; the structural links need hashes of the right kind.
use vstd::prelude::*;
use crate::holochain::{
    accepts, bytes_seq, invalid, is_held, missing_pkg_message, refuses_with, require_record, unresolved,
    LinkableHash, LinkableKind, PreviousAction, ValidateCallbackResult, ValidationFailure,
    ValidationOp,
};

verus! {

/// A published artifact manifest; its meaning lives in its metadata blob.
#[derive(Debug, Clone, PartialEq, Eq)]
pub struct Manifest {
    pub metadata_blob: Vec<u8>,
}

/// A statement by a validator about a manifest.
#[derive(Debug, Clone, PartialEq, Eq)]
pub struct Attestation {
    pub manifest_hash: Vec<u8>,
    pub metadata_blob: Vec<u8>,
}

/// A claim that a manifest misrepresents its artifact.
#[derive(Debug, Clone, PartialEq, Eq)]
pub struct Warrant {
    pub manifest_hash: Vec<u8>,
    pub metadata_blob: Vec<u8>,
}

/// An agent's last computed reputation (score in millionths) and its counters.
#[derive(Debug, Clone, PartialEq, Eq)]
pub struct ReputationCache {
    pub agent: Vec<u8>,
    pub score: u32,
    pub score_delta: i32,
    pub computed_at: i64,
    pub attestation_count: u32,
    pub warrant_count: u32,
    pub total_commits: u32,
    pub total_reveals: u32,
}

/// A manifest's last computed trust score (in millionths).
#[derive(Debug, Clone, PartialEq, Eq)]
pub struct TrustScoreCache {
    pub manifest_hash: Vec<u8>,
    pub score: u32,
    pub computed_at: i64,
    pub attestation_count: u32,
}

/// Whether a validator agreed with the consensus on a request.
#[derive(Debug, Clone, PartialEq, Eq)]
pub struct ConvergenceSignal {
    pub agent: Vec<u8>,
    pub agreed: bool,
    pub request_hash: Vec<u8>,
}

/// A warrant confirmed against a manifest, with its severity in millionths.
#[derive(Debug, Clone, PartialEq, Eq)]
pub struct WarrantConfirmation {
    pub warrant_hash: Vec<u8>,
    pub manifest_hash: Vec<u8>,
    pub confirmed_severity: u32,
    pub confirmed_at: i64,
}

/// The entry types of the registry DNA.
#[derive(Debug, Clone, PartialEq, Eq)]
pub enum EntryTypes {
    Manifest(Manifest),
    Attestation(Attestation),
    Warrant(Warrant),
    ReputationCache(ReputationCache),
    TrustScoreCache(TrustScoreCache),
    WarrantConfirmation(WarrantConfirmation),
    ConvergenceSignal(ConvergenceSignal),
}

/// The link types of the registry DNA.
#[derive(Debug, Clone, Copy, PartialEq, Eq)]
pub enum LinkTypes {
    AgentToManifest,
    ManifestToAttestation,
    ManifestToWarrant,
    AttestationToWarrant,
    AgentToReputationCache,
    ManifestToUpstream,
    UpstreamToDerivative,
    ContentHashToManifest,
    ManifestToValidationRequest,
    AgentToAttestation,
    ManifestToValidator,
    ManifestToTrustScoreCache,
    ManifestToWarrantConfirmation,
    AgentToConvergenceSignal,
    GlobalManifestAnchor,
}

/// What the genesis self-check sees of the joining agent.
#[derive(Debug, Clone, PartialEq, Eq)]
pub struct GenesisData {
    pub agent_key: Vec<u8>,
    pub membrane_proof: Option<Vec<u8>>,
}

/// Every agent passes the genesis self-check.
pub fn genesis_self_check(_data: &GenesisData) -> (r: ValidateCallbackResult)
    ensures
        accepts(r),
{
    ValidateCallbackResult::Valid
}

/// Every agent may join; no membrane proof is required.
pub fn validate_agent_joining(_agent: &Vec<u8>, _membrane_proof: &Option<Vec<u8>>) -> (r:
    ValidateCallbackResult)
    ensures
        accepts(r),
{
    ValidateCallbackResult::Valid
}

/// `r` is the failure `f`.
pub open spec fn fails_with(r: Result<ValidateCallbackResult, ValidationFailure>, f: ValidationFailure) -> bool {
    r is Err && r->Err_0 == f
}

/// The rule for a new entry, given the records held as valid.
pub open spec fn entry_outcome(
    entry: EntryTypes,
    held: Seq<Vec<u8>>,
    r: Result<ValidateCallbackResult, ValidationFailure>,
) -> bool {
    match entry {
        EntryTypes::Attestation(a) => if !is_held(held, a.manifest_hash@) {
            unresolved(r, a.manifest_hash@)
        } else {
            r is Ok && accepts(r->Ok_0)
        },
        EntryTypes::Warrant(w) => if !is_held(held, w.manifest_hash@) {
            unresolved(r, w.manifest_hash@)
        } else if w.metadata_blob@.len() == 0 {
            r is Ok && refuses_with(r->Ok_0, "Warrant metadata blob cannot be empty"@)
        } else {
            r is Ok && accepts(r->Ok_0)
        },
        _ => r is Ok && accepts(r->Ok_0),
    }
}

/// Only attestations and warrants can be refused or wait for a record: every
/// other new entry (manifests, caches, warrant confirmations and convergence
/// signals, agreeing or not) is accepted, whatever records are held.
pub proof fn law_other_entries_are_accepted(
    entry: EntryTypes,
    held: Seq<Vec<u8>>,
    r: Result<ValidateCallbackResult, ValidationFailure>,
)
    requires
        entry_outcome(entry, held, r),
        !(entry is Attestation),
        !(entry is Warrant),
    ensures
        r == Ok::<ValidateCallbackResult, ValidationFailure>(ValidateCallbackResult::Valid),
{
}

/// An attestation is accepted exactly when its manifest is held, and otherwise
/// waits for that manifest; a warrant likewise waits for its manifest, and once
/// it is held is accepted exactly when its metadata blob is not empty.
pub proof fn law_attestation_and_warrant_rules(
    entry: EntryTypes,
    held: Seq<Vec<u8>>,
    r: Result<ValidateCallbackResult, ValidationFailure>,
)
    requires
        entry_outcome(entry, held, r),
    ensures
        entry matches EntryTypes::Attestation(a) ==> {
            &&& bytes_seq(held).contains(a.manifest_hash@) ==> r == Ok::<
                ValidateCallbackResult,
                ValidationFailure,
            >(ValidateCallbackResult::Valid)
            &&& !bytes_seq(held).contains(a.manifest_hash@) ==> r is Err && r->Err_0 is UnresolvedRecord
                && r->Err_0->UnresolvedRecord_0@ == a.manifest_hash@
        },
        entry matches EntryTypes::Warrant(w) ==> {
            &&& !bytes_seq(held).contains(w.manifest_hash@) ==> r is Err && r->Err_0 is UnresolvedRecord
                && r->Err_0->UnresolvedRecord_0@ == w.manifest_hash@
            &&& bytes_seq(held).contains(w.manifest_hash@) ==> r is Ok && (r->Ok_0
                == ValidateCallbackResult::Valid <==> w.metadata_blob@.len() > 0)
        },
{
}

/// An attestation needs its manifest.
pub fn validate_create_attestation(attestation: &Attestation, held: &Vec<Vec<u8>>) -> (r: Result<
    ValidateCallbackResult,
    ValidationFailure,
>)
    ensures
        entry_outcome(EntryTypes::Attestation(*attestation), held@, r),
{
    require_record(held, &attestation.manifest_hash)?;
    Ok(ValidateCallbackResult::Valid)
}

/// A warrant needs its manifest and a non-empty metadata blob; the evidence in
/// the blob is judged later, when the warrant is confirmed.
pub fn validate_create_warrant(warrant: &Warrant, held: &Vec<Vec<u8>>) -> (r: Result<
    ValidateCallbackResult,
    ValidationFailure,
>)
    ensures
        entry_outcome(EntryTypes::Warrant(*warrant), held@, r),
{
    require_record(held, &warrant.manifest_hash)?;
    if warrant.metadata_blob.len() == 0 {
        return Ok(invalid("Warrant metadata blob cannot be empty"));
    }
    Ok(ValidateCallbackResult::Valid)
}

fn validate_create_entry(entry: &EntryTypes, held: &Vec<Vec<u8>>) -> (r: Result<
    ValidateCallbackResult,
    ValidationFailure,
>)
    ensures
        entry_outcome(*entry, held@, r),
{
    match entry {
        EntryTypes::Manifest(_) => Ok(ValidateCallbackResult::Valid),
        EntryTypes::Attestation(a) => validate_create_attestation(a, held),
        EntryTypes::Warrant(w) => validate_create_warrant(w, held),
        EntryTypes::ReputationCache(_) => Ok(ValidateCallbackResult::Valid),
        EntryTypes::TrustScoreCache(_) => Ok(ValidateCallbackResult::Valid),
        EntryTypes::WarrantConfirmation(_) => Ok(ValidateCallbackResult::Valid),
        EntryTypes::ConvergenceSignal(_) => Ok(ValidateCallbackResult::Valid),
    }
}

/// The hash must be an action hash, which must be held as valid.
pub open spec fn action_held(
    h: LinkableHash,
    held: Seq<Vec<u8>>,
    not_action: ValidationFailure,
) -> Option<ValidationFailure> {
    if h.kind != LinkableKind::Action {
        Some(not_action)
    } else if !is_held(held, h.bytes@) {
        Some(ValidationFailure::UnresolvedRecord(h.bytes))
    } else {
        None
    }
}

/// The first failure the rules find on a new link, if any; a link without a
/// failure is accepted.
pub open spec fn link_failure(
    link_type: LinkTypes,
    base: LinkableHash,
    target: LinkableHash,
    held: Seq<Vec<u8>>,
) -> Option<ValidationFailure> {
    match link_type {
        LinkTypes::AgentToManifest => if base.kind != LinkableKind::Entry {
            Some(ValidationFailure::BaseNotAgent)
        } else {
            action_held(target, held, ValidationFailure::TargetNotAction)
        },
        LinkTypes::ManifestToAttestation => action_held(base, held, ValidationFailure::BaseNotAction),
        LinkTypes::ManifestToWarrant | LinkTypes::AttestationToWarrant => match action_held(
            base,
            held,
            ValidationFailure::BaseNotAction,
        ) {
            Some(f) => Some(f),
            None => action_held(target, held, ValidationFailure::TargetNotAction),
        },
        _ => None,
    }
}

/// The rule for a new link, as an outcome.
pub open spec fn link_outcome(
    link_type: LinkTypes,
    base: LinkableHash,
    target: LinkableHash,
    held: Seq<Vec<u8>>,
    r: Result<ValidateCallbackResult, ValidationFailure>,
) -> bool {
    match link_failure(link_type, base, target, held) {
        Some(ValidationFailure::UnresolvedRecord(h)) => unresolved(r, h@),
        Some(f) => fails_with(r, f),
        None => r is Ok && accepts(r->Ok_0),
    }
}

/// What each new registry link gets. An agent-to-manifest link needs an agent
/// key at its base, then an action hash at its target, then that record held. A
/// manifest-to-attestation link needs a held action at its base. A link to a
/// warrant needs a held action at its base, then a held action at its target.
/// Every other link is accepted. Checks happen in that order, and a missing
/// record is waited for.
pub proof fn law_registry_link_rules(
    link_type: LinkTypes,
    base: LinkableHash,
    target: LinkableHash,
    held: Seq<Vec<u8>>,
    r: Result<ValidateCallbackResult, ValidationFailure>,
)
    requires
        link_outcome(link_type, base, target, held, r),
    ensures
        link_type is AgentToManifest ==> {
            &&& base.kind != LinkableKind::Entry ==> r == Err::<ValidateCallbackResult, ValidationFailure>(
                ValidationFailure::BaseNotAgent,
            )
            &&& base.kind == LinkableKind::Entry && target.kind != LinkableKind::Action ==> r == Err::<
                ValidateCallbackResult,
                ValidationFailure,
            >(ValidationFailure::TargetNotAction)
            &&& base.kind == LinkableKind::Entry && target.kind == LinkableKind::Action ==> {
                &&& bytes_seq(held).contains(target.bytes@) ==> r == Ok::<
                    ValidateCallbackResult,
                    ValidationFailure,
                >(ValidateCallbackResult::Valid)
                &&& !bytes_seq(held).contains(target.bytes@) ==> r is Err && r->Err_0 is UnresolvedRecord
                    && r->Err_0->UnresolvedRecord_0@ == target.bytes@
            }
        },
        link_type is ManifestToAttestation ==> {
            &&& base.kind != LinkableKind::Action ==> r == Err::<ValidateCallbackResult, ValidationFailure>(
                ValidationFailure::BaseNotAction,
            )
            &&& base.kind == LinkableKind::Action && bytes_seq(held).contains(base.bytes@) ==> r == Ok::<
                ValidateCallbackResult,
                ValidationFailure,
            >(ValidateCallbackResult::Valid)
            &&& base.kind == LinkableKind::Action && !bytes_seq(held).contains(base.bytes@) ==> r is Err
                && r->Err_0 is UnresolvedRecord && r->Err_0->UnresolvedRecord_0@ == base.bytes@
        },
        link_type is ManifestToWarrant || link_type is AttestationToWarrant ==> {
            &&& base.kind != LinkableKind::Action ==> r == Err::<ValidateCallbackResult, ValidationFailure>(
                ValidationFailure::BaseNotAction,
            )
            &&& base.kind == LinkableKind::Action && !bytes_seq(held).contains(base.bytes@) ==> r is Err
                && r->Err_0 is UnresolvedRecord && r->Err_0->UnresolvedRecord_0@ == base.bytes@
            &&& base.kind == LinkableKind::Action && bytes_seq(held).contains(base.bytes@) ==> {
                &&& target.kind != LinkableKind::Action ==> r == Err::<
                    ValidateCallbackResult,
                    ValidationFailure,
                >(ValidationFailure::TargetNotAction)
                &&& target.kind == LinkableKind::Action && bytes_seq(held).contains(target.bytes@) ==> r
                    == Ok::<ValidateCallbackResult, ValidationFailure>(ValidateCallbackResult::Valid)
                &&& target.kind == LinkableKind::Action && !bytes_seq(held).contains(target.bytes@) ==> r
                    is Err && r->Err_0 is UnresolvedRecord && r->Err_0->UnresolvedRecord_0@ == target.bytes@
            }
        },
        !(link_type is AgentToManifest || link_type is ManifestToAttestation || link_type is ManifestToWarrant
            || link_type is AttestationToWarrant) ==> r == Ok::<ValidateCallbackResult, ValidationFailure>(
            ValidateCallbackResult::Valid,
        ),
{
}

fn require_held_action(h: &LinkableHash, held: &Vec<Vec<u8>>, not_action: ValidationFailure) -> (r:
    Result<(), ValidationFailure>)
    ensures
        match action_held(*h, held@, not_action) {
            Some(ValidationFailure::UnresolvedRecord(x)) => r is Err && r->Err_0 is UnresolvedRecord
                && r->Err_0->UnresolvedRecord_0@ == x@,
            Some(f) => r == Err::<(), ValidationFailure>(f),
            None => r is Ok,
        },
{
    if h.kind != LinkableKind::Action {
        return Err(not_action);
    }
    require_record(held, &h.bytes)
}

/// An agent-to-manifest link goes from an agent key to a held manifest.
pub fn validate_create_link_agent_to_manifest(
    base: &LinkableHash,
    target: &LinkableHash,
    held: &Vec<Vec<u8>>,
) -> (r: Result<ValidateCallbackResult, ValidationFailure>)
    ensures
        link_outcome(LinkTypes::AgentToManifest, *base, *target, held@, r),
{
    if base.kind != LinkableKind::Entry {
        return Err(ValidationFailure::BaseNotAgent);
    }
    require_held_action(target, held, ValidationFailure::TargetNotAction)?;
    Ok(ValidateCallbackResult::Valid)
}

/// A manifest-to-attestation link starts at a held manifest.
pub fn validate_create_link_manifest_to_attestation(
    base: &LinkableHash,
    target: &LinkableHash,
    held: &Vec<Vec<u8>>,
) -> (r: Result<ValidateCallbackResult, ValidationFailure>)
    ensures
        link_outcome(LinkTypes::ManifestToAttestation, *base, *target, held@, r),
{
    require_held_action(base, held, ValidationFailure::BaseNotAction)?;
    Ok(ValidateCallbackResult::Valid)
}

/// A manifest-to-warrant link joins a held manifest to a held warrant.
pub fn validate_create_link_manifest_to_warrant(
    base: &LinkableHash,
    target: &LinkableHash,
    held: &Vec<Vec<u8>>,
) -> (r: Result<ValidateCallbackResult, ValidationFailure>)
    ensures
        link_outcome(LinkTypes::ManifestToWarrant, *base, *target, held@, r),
{
    require_held_action(base, held, ValidationFailure::BaseNotAction)?;
    require_held_action(target, held, ValidationFailure::TargetNotAction)?;
    Ok(ValidateCallbackResult::Valid)
}

/// An attestation-to-warrant link joins a held attestation to a held warrant.
pub fn validate_create_link_attestation_to_warrant(
    base: &LinkableHash,
    target: &LinkableHash,
    held: &Vec<Vec<u8>>,
) -> (r: Result<ValidateCallbackResult, ValidationFailure>)
    ensures
        link_outcome(LinkTypes::AttestationToWarrant, *base, *target, held@, r),
{
    require_held_action(base, held, ValidationFailure::BaseNotAction)?;
    require_held_action(target, held, ValidationFailure::TargetNotAction)?;
    Ok(ValidateCallbackResult::Valid)
}

fn validate_create_link(
    link_type: LinkTypes,
    base: &LinkableHash,
    target: &LinkableHash,
    held: &Vec<Vec<u8>>,
) -> (r: Result<ValidateCallbackResult, ValidationFailure>)
    ensures
        link_outcome(link_type, *base, *target, held@, r),
{
    match link_type {
        LinkTypes::AgentToManifest => validate_create_link_agent_to_manifest(base, target, held),
        LinkTypes::ManifestToAttestation => validate_create_link_manifest_to_attestation(
            base,
            target,
            held,
        ),
        LinkTypes::ManifestToWarrant => validate_create_link_manifest_to_warrant(base, target, held),
        LinkTypes::AttestationToWarrant => validate_create_link_attestation_to_warrant(
            base,
            target,
            held,
        ),
        _ => Ok(ValidateCallbackResult::Valid),
    }
}

/// The records the rule for a new entry looks up: the manifest an attestation
/// or a warrant speaks of.
pub open spec fn entry_lookups(entry: EntryTypes) -> Seq<Seq<u8>> {
    match entry {
        EntryTypes::Attestation(a) => seq![a.manifest_hash@],
        EntryTypes::Warrant(w) => seq![w.manifest_hash@],
        _ => Seq::empty(),
    }
}

/// The records the rule for a new link looks up, in order. A link's base and
/// target kinds are tested before each lookup, so a link that fails such a test
/// looks up nothing further.
pub open spec fn link_lookups(link_type: LinkTypes, base: LinkableHash, target: LinkableHash) -> Seq<
    Seq<u8>,
> {
    match link_type {
        LinkTypes::AgentToManifest => if base.kind != LinkableKind::Entry || target.kind
            != LinkableKind::Action {
            Seq::empty()
        } else {
            seq![target.bytes@]
        },
        LinkTypes::ManifestToAttestation => if base.kind != LinkableKind::Action {
            Seq::empty()
        } else {
            seq![base.bytes@]
        },
        LinkTypes::ManifestToWarrant | LinkTypes::AttestationToWarrant => if base.kind
            != LinkableKind::Action {
            Seq::empty()
        } else if target.kind != LinkableKind::Action {
            seq![base.bytes@]
        } else {
            seq![base.bytes@, target.bytes@]
        },
        _ => Seq::empty(),
    }
}

/// The records the rule for `op` looks up, in the order it looks them up.
pub open spec fn lookups(op: ValidationOp<EntryTypes, LinkTypes>) -> Seq<Seq<u8>> {
    match op {
        ValidationOp::StoreEntryCreate(e) | ValidationOp::StoreRecordCreate(e) => entry_lookups(e),
        ValidationOp::RegisterCreateLink { link_type, base, target }
        | ValidationOp::StoreRecordCreateLink { link_type, base, target } => link_lookups(
            link_type,
            base,
            target,
        ),
        _ => Seq::empty(),
    }
}

fn entry_required(entry: &EntryTypes) -> (r: Vec<Vec<u8>>)
    ensures
        bytes_seq(r@) == entry_lookups(*entry),
{
    let mut r: Vec<Vec<u8>> = Vec::new();
    match entry {
        EntryTypes::Attestation(a) => r.push(a.manifest_hash.clone()),
        EntryTypes::Warrant(w) => r.push(w.manifest_hash.clone()),
        _ => {},
    }
    assert(bytes_seq(r@) =~= entry_lookups(*entry));
    r
}

fn link_required(link_type: LinkTypes, base: &LinkableHash, target: &LinkableHash) -> (r: Vec<Vec<u8>>)
    ensures
        bytes_seq(r@) == link_lookups(link_type, *base, *target),
{
    let mut r: Vec<Vec<u8>> = Vec::new();
    match link_type {
        LinkTypes::AgentToManifest => {
            if base.kind == LinkableKind::Entry && target.kind == LinkableKind::Action {
                r.push(target.bytes.clone());
            }
        },
        LinkTypes::ManifestToAttestation => {
            if base.kind == LinkableKind::Action {
                r.push(base.bytes.clone());
            }
        },
        LinkTypes::ManifestToWarrant | LinkTypes::AttestationToWarrant => {
            if base.kind == LinkableKind::Action {
                r.push(base.bytes.clone());
                if target.kind == LinkableKind::Action {
                    r.push(target.bytes.clone());
                }
            }
        },
        _ => {},
    }
    assert(bytes_seq(r@) =~= link_lookups(link_type, *base, *target));
    r
}

/// The records the rule for `op` looks up, in the order it looks them up; the
/// host stops at the first one it cannot resolve.
pub fn required_records(op: &ValidationOp<EntryTypes, LinkTypes>) -> (r: Vec<Vec<u8>>)
    ensures
        bytes_seq(r@) == lookups(*op),
{
    match op {
        ValidationOp::StoreEntryCreate(e) => entry_required(e),
        ValidationOp::StoreRecordCreate(e) => entry_required(e),
        ValidationOp::RegisterCreateLink { link_type, base, target } => link_required(*link_type, base, target),
        ValidationOp::StoreRecordCreateLink { link_type, base, target } => link_required(
            *link_type,
            base,
            target,
        ),
        _ => {
            let r: Vec<Vec<u8>> = Vec::new();
            assert(bytes_seq(r@) =~= lookups(*op));
            r
        },
    }
}

/// Looking up the required records is enough for a new entry: once they are
/// all held, no rule fails for want of a record.
pub proof fn law_entry_records_suffice(
    entry: EntryTypes,
    held: Seq<Vec<u8>>,
    r: Result<ValidateCallbackResult, ValidationFailure>,
)
    requires
        forall|i: int| 0 <= i < entry_lookups(entry).len() ==> is_held(held, #[trigger] entry_lookups(entry)[i]),
        entry_outcome(entry, held, r),
    ensures
        !(r is Err),
{
    match entry {
        EntryTypes::Attestation(a) => assert(entry_lookups(entry)[0] == a.manifest_hash@),
        EntryTypes::Warrant(w) => assert(entry_lookups(entry)[0] == w.manifest_hash@),
        _ => {},
    }
}

/// Looking up the required records is enough for a new link: once they are all
/// held, the rule fails, if at all, only on the kind of hash at either end.
pub proof fn law_link_records_suffice(
    link_type: LinkTypes,
    base: LinkableHash,
    target: LinkableHash,
    held: Seq<Vec<u8>>,
    r: Result<ValidateCallbackResult, ValidationFailure>,
)
    requires
        forall|i: int|
            0 <= i < link_lookups(link_type, base, target).len() ==> is_held(
                held,
                #[trigger] link_lookups(link_type, base, target)[i],
            ),
        link_outcome(link_type, base, target, held, r),
    ensures
        !(r is Err && r->Err_0 is UnresolvedRecord),
{
    let l = link_lookups(link_type, base, target);
    if l.len() > 0 {
        assert(is_held(held, l[0]));
    }
    if l.len() > 1 {
        assert(is_held(held, l[1]));
    }
}

/// Message for an op that would change a stored entry.
pub open spec fn update_message() -> Seq<char> {
    "Registry entries are immutable — updates are not permitted"@
}

/// Message for an op that would remove a stored entry.
pub open spec fn delete_message() -> Seq<char> {
    "Registry entries are immutable — deletes are not permitted"@
}

/// The DNA's validation callback, given the records (by action hash) that the
/// host holds as valid. Stored entries and links may never be changed or
/// removed; new entries and links follow their type's rule; a new agent must
/// come right after its validation package.
pub fn validate(op: &ValidationOp<EntryTypes, LinkTypes>, held: &Vec<Vec<u8>>) -> (r: Result<
    ValidateCallbackResult,
    ValidationFailure,
>)
    ensures
        (op is StoreEntryUpdate || op is RegisterUpdate || op is StoreRecordUpdate) ==> r is Ok
            && refuses_with(r->Ok_0, update_message()),
        (op is RegisterDelete || op is StoreRecordDelete) ==> r is Ok && refuses_with(
            r->Ok_0,
            delete_message(),
        ),
        (op is RegisterDeleteLink || op is StoreRecordDeleteLink) ==> r is Ok && refuses_with(
            r->Ok_0,
            "Registry links are permanent — deletes are not permitted"@,
        ),
        op is Other ==> r is Ok && accepts(r->Ok_0),
        match *op {
            ValidationOp::StoreEntryCreate(e) | ValidationOp::StoreRecordCreate(e) => !(e is Attestation)
                && !(e is Warrant) ==> r == Ok::<ValidateCallbackResult, ValidationFailure>(
                ValidateCallbackResult::Valid,
            ),
            _ => true,
        },
        match *op {
            ValidationOp::StoreEntryCreate(e) | ValidationOp::StoreRecordCreate(e) => entry_outcome(
                e,
                held@,
                r,
            ),
            ValidationOp::RegisterCreateLink { link_type, base, target }
            | ValidationOp::StoreRecordCreateLink { link_type, base, target } => link_outcome(
                link_type,
                base,
                target,
                held@,
                r,
            ),
            ValidationOp::CreateAgent { agent, previous } => r is Ok && match previous {
                PreviousAction::AgentValidationPkg { .. } => accepts(r->Ok_0),
                PreviousAction::Other => refuses_with(r->Ok_0, missing_pkg_message()),
            },
            _ => true,
        },
{
    match op {
        ValidationOp::StoreEntryCreate(entry) => validate_create_entry(entry, held),
        ValidationOp::StoreEntryUpdate => Ok(
            invalid("Registry entries are immutable — updates are not permitted"),
        ),
        ValidationOp::RegisterUpdate => Ok(
            invalid("Registry entries are immutable — updates are not permitted"),
        ),
        ValidationOp::RegisterDelete => Ok(
            invalid("Registry entries are immutable — deletes are not permitted"),
        ),
        ValidationOp::RegisterCreateLink { link_type, base, target } => validate_create_link(
            *link_type,
            base,
            target,
            held,
        ),
        ValidationOp::RegisterDeleteLink => Ok(
            invalid("Registry links are permanent — deletes are not permitted"),
        ),
        ValidationOp::StoreRecordCreate(entry) => validate_create_entry(entry, held),
        ValidationOp::StoreRecordUpdate => Ok(
            invalid("Registry entries are immutable — updates are not permitted"),
        ),
        ValidationOp::StoreRecordDelete => Ok(
            invalid("Registry entries are immutable — deletes are not permitted"),
        ),
        ValidationOp::StoreRecordCreateLink { link_type, base, target } => validate_create_link(
            *link_type,
            base,
            target,
            held,
        ),
        ValidationOp::StoreRecordDeleteLink => Ok(
            invalid("Registry links are permanent — deletes are not permitted"),
        ),
        ValidationOp::CreateAgent { agent, previous } => match previous {
            PreviousAction::AgentValidationPkg { membrane_proof } => Ok(
                validate_agent_joining(agent, membrane_proof),
            ),
            PreviousAction::Other => Ok(
                invalid(
                    "The previous action for a `CreateAgent` action must be an `AgentValidationPkg`",
                ),
            ),
        },
        ValidationOp::Other => Ok(ValidateCallbackResult::Valid),
    }
}

} // verus!
