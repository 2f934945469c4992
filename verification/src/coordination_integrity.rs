//! Integrity rules of the coordination DNA: validation requests, evaluation
//! commitments and bundles, quorum bundles and evidence are append-only, and
//! each one that refers to a request needs that request to be held.
use vstd::prelude::*;
use crate::holochain::{
    accepts, bytes_seq, invalid, is_entry_change, is_held, is_link_removal, missing_pkg_message,
    refuses_with, require_record, unresolved, PreviousAction, ValidateCallbackResult,
    ValidationFailure, ValidationOp,
};

verus! {

/// A request that a manifest be validated.
#[derive(Debug, Clone, PartialEq, Eq)]
pub struct ValidationRequest {
    pub manifest_hash: Vec<u8>,
    pub requester: Vec<u8>,
    pub validation_type: String,
    pub required_capabilities: Vec<String>,
    pub metadata_blob: Vec<u8>,
}

/// A validator's revealed evaluation of a request.
#[derive(Debug, Clone, PartialEq, Eq)]
pub struct EvaluationBundle {
    pub request_hash: Vec<u8>,
    pub evaluator: Vec<u8>,
    pub metadata_blob: Vec<u8>,
}

/// A validator's sealed commitment to an evaluation.
#[derive(Debug, Clone, PartialEq, Eq)]
pub struct EvaluationCommitment {
    pub request_hash: Vec<u8>,
    pub evaluator: Vec<u8>,
    pub commitment_hash: Vec<u8>,
}

/// A piece of evidence found about a manifest, with its severity in millionths.
#[derive(Debug, Clone, PartialEq, Eq)]
pub struct ValidationEvidence {
    pub manifest_hash: Vec<u8>,
    pub evidence_type: String,
    pub expected: String,
    pub actual: String,
    pub computed_severity: u32,
    pub metadata_blob: Vec<u8>,
}

/// The record that a request reached quorum.
#[derive(Debug, Clone, PartialEq, Eq)]
pub struct QuorumBundle {
    pub request_hash: Vec<u8>,
    pub evaluation_hashes: Vec<Vec<u8>>,
    pub reached_quorum: bool,
    pub metadata_blob: Vec<u8>,
}

/// The entry types of the coordination DNA.
#[derive(Debug, Clone, PartialEq, Eq)]
pub enum EntryTypes {
    ValidationRequest(ValidationRequest),
    EvaluationCommitment(EvaluationCommitment),
    EvaluationBundle(EvaluationBundle),
    QuorumBundle(QuorumBundle),
    ValidationEvidence(ValidationEvidence),
}

/// The link types of the coordination DNA.
#[derive(Debug, Clone, Copy, PartialEq, Eq)]
pub enum LinkTypes {
    RequestToEvaluation,
    RequestToCommitment,
    RequestToQuorum,
    AgentToRequest,
    ManifestToRequest,
    ManifestToEvidence,
    GlobalValidationRequestAnchor,
}

/// What the genesis self-check sees of the joining agent.
#[derive(Debug, Clone, PartialEq, Eq)]
pub struct GenesisData {
    pub agent_key: Vec<u8>,
    pub membrane_proof: Option<Vec<u8>>,
}

/// Every agent passes the genesis self-check.
pub fn genesis_self_check(_data: &GenesisData) -> (r: ValidateCallbackResult)
    ensures
        accepts(r),
{
    ValidateCallbackResult::Valid
}

/// Every agent may join; no membrane proof is required.
pub fn validate_agent_joining(_agent: &Vec<u8>, _membrane_proof: &Option<Vec<u8>>) -> (r:
    ValidateCallbackResult)
    ensures
        accepts(r),
{
    ValidateCallbackResult::Valid
}

/// Length of a sha256 digest.
pub const COMMITMENT_HASH_LEN: usize = 32;

/// Highest severity evidence may carry (millionths).
pub const MAX_SEVERITY: u32 = 1_000_000;

/// The message evidence is refused with, if it is refused.
pub open spec fn evidence_refusal(e: ValidationEvidence) -> Option<Seq<char>> {
    if e.evidence_type@.len() == 0 {
        Some("ValidationEvidence requires a non-empty evidence_type"@)
    } else if e.computed_severity > MAX_SEVERITY {
        Some("computed_severity must be 0-1_000_000"@)
    } else {
        None
    }
}

/// The request a new entry depends on, if it depends on one.
pub open spec fn entry_dependency(entry: EntryTypes) -> Option<Seq<u8>> {
    match entry {
        EntryTypes::EvaluationCommitment(c) => Some(c.request_hash@),
        EntryTypes::EvaluationBundle(b) => Some(b.request_hash@),
        EntryTypes::QuorumBundle(b) => Some(b.request_hash@),
        _ => None,
    }
}

/// The message a new entry is refused with once its dependency is held, if any.
pub open spec fn entry_refusal(entry: EntryTypes) -> Option<Seq<char>> {
    match entry {
        EntryTypes::EvaluationCommitment(c) => if c.commitment_hash@.len() != 32 {
            Some("Commitment hash must be 32 bytes (sha256)"@)
        } else {
            None
        },
        EntryTypes::ValidationEvidence(e) => evidence_refusal(e),
        _ => None,
    }
}

/// The full rule for a new entry: first the record it depends on must be held,
/// then its own checks apply.
pub open spec fn entry_outcome(
    entry: EntryTypes,
    held: Seq<Vec<u8>>,
    r: Result<ValidateCallbackResult, ValidationFailure>,
) -> bool {
    match entry_dependency(entry) {
        Some(h) if !is_held(held, h) => unresolved(r, h),
        _ => match entry_refusal(entry) {
            Some(msg) => r is Ok && refuses_with(r->Ok_0, msg),
            None => r is Ok && accepts(r->Ok_0),
        },
    }
}

/// The records the rule for `op` looks up, in the order it looks them up: only
/// the request behind a new commitment, evaluation bundle or quorum bundle.
/// Links are accepted without any lookup, and evidence names a manifest of
/// another DNA, which is not looked up.
pub open spec fn lookups(op: ValidationOp<EntryTypes, LinkTypes>) -> Seq<Seq<u8>> {
    match op {
        ValidationOp::StoreEntryCreate(e) | ValidationOp::StoreRecordCreate(e) => match entry_dependency(
            e,
        ) {
            Some(h) => seq![h],
            None => Seq::empty(),
        },
        _ => Seq::empty(),
    }
}

/// The records the rule for `op` looks up, in the order it looks them up; the
/// host stops at the first one it cannot resolve.
pub fn required_records(op: &ValidationOp<EntryTypes, LinkTypes>) -> (r: Vec<Vec<u8>>)
    ensures
        bytes_seq(r@) == lookups(*op),
{
    let dependency = match op {
        ValidationOp::StoreEntryCreate(e) => entry_request(e),
        ValidationOp::StoreRecordCreate(e) => entry_request(e),
        _ => None,
    };
    let mut r: Vec<Vec<u8>> = Vec::new();
    match dependency {
        Some(h) => {
            r.push(h);
            assert(bytes_seq(r@) =~= lookups(*op));
        },
        None => {
            assert(bytes_seq(r@) =~= lookups(*op));
        },
    }
    r
}

fn entry_request(entry: &EntryTypes) -> (r: Option<Vec<u8>>)
    ensures
        match entry_dependency(*entry) {
            Some(h) => r is Some && r->0@ == h,
            None => r is None,
        },
{
    match entry {
        EntryTypes::EvaluationCommitment(c) => Some(c.request_hash.clone()),
        EntryTypes::EvaluationBundle(b) => Some(b.request_hash.clone()),
        EntryTypes::QuorumBundle(b) => Some(b.request_hash.clone()),
        _ => None,
    }
}

/// Looking up the required records is enough: once they are all held, no rule
/// fails for want of a record.
pub proof fn law_required_records_suffice(
    entry: EntryTypes,
    held: Seq<Vec<u8>>,
    r: Result<ValidateCallbackResult, ValidationFailure>,
)
    requires
        forall|i: int| 0 <= i < lookups(ValidationOp::StoreEntryCreate(entry)).len() ==> is_held(
            held,
            #[trigger] lookups(ValidationOp::StoreEntryCreate(entry))[i],
        ),
        entry_outcome(entry, held, r),
    ensures
        r is Ok,
{
    if let Some(h) = entry_dependency(entry) {
        assert(lookups(ValidationOp::StoreEntryCreate(entry))[0] == h);
    }
}

/// What each new coordination entry gets. A validation request is always
/// accepted. Evidence is accepted exactly when it names a type and its severity
/// is at most one million. A commitment, an evaluation bundle or a quorum bundle
/// waits for its request while that is not held; once it is, bundles are
/// accepted, and a commitment exactly when its hash is 32 bytes long.
pub proof fn law_coordination_entry_rules(
    entry: EntryTypes,
    held: Seq<Vec<u8>>,
    r: Result<ValidateCallbackResult, ValidationFailure>,
)
    requires
        entry_outcome(entry, held, r),
    ensures
        entry is ValidationRequest ==> r == Ok::<ValidateCallbackResult, ValidationFailure>(
            ValidateCallbackResult::Valid,
        ),
        entry matches EntryTypes::ValidationEvidence(e) ==> r is Ok && (r->Ok_0
            == ValidateCallbackResult::Valid <==> e.evidence_type@.len() > 0 && e.computed_severity
            <= 1_000_000),
        entry matches EntryTypes::EvaluationCommitment(c) ==> {
            &&& !bytes_seq(held).contains(c.request_hash@) ==> r is Err && r->Err_0 is UnresolvedRecord
                && r->Err_0->UnresolvedRecord_0@ == c.request_hash@
            &&& bytes_seq(held).contains(c.request_hash@) ==> r is Ok && (r->Ok_0
                == ValidateCallbackResult::Valid <==> c.commitment_hash@.len() == 32)
        },
        entry matches EntryTypes::EvaluationBundle(b) ==> {
            &&& !bytes_seq(held).contains(b.request_hash@) ==> r is Err && r->Err_0 is UnresolvedRecord
                && r->Err_0->UnresolvedRecord_0@ == b.request_hash@
            &&& bytes_seq(held).contains(b.request_hash@) ==> r == Ok::<
                ValidateCallbackResult,
                ValidationFailure,
            >(ValidateCallbackResult::Valid)
        },
        entry matches EntryTypes::QuorumBundle(b) ==> {
            &&& !bytes_seq(held).contains(b.request_hash@) ==> r is Err && r->Err_0 is UnresolvedRecord
                && r->Err_0->UnresolvedRecord_0@ == b.request_hash@
            &&& bytes_seq(held).contains(b.request_hash@) ==> r == Ok::<
                ValidateCallbackResult,
                ValidationFailure,
            >(ValidateCallbackResult::Valid)
        },
{
}

/// A commitment needs its request and a 32-byte commitment hash.
pub fn validate_create_evaluation_commitment(
    commitment: &EvaluationCommitment,
    held: &Vec<Vec<u8>>,
) -> (r: Result<ValidateCallbackResult, ValidationFailure>)
    ensures
        entry_outcome(EntryTypes::EvaluationCommitment(*commitment), held@, r),
{
    require_record(held, &commitment.request_hash)?;
    if commitment.commitment_hash.len() != COMMITMENT_HASH_LEN {
        return Ok(invalid("Commitment hash must be 32 bytes (sha256)"));
    }
    Ok(ValidateCallbackResult::Valid)
}

/// An evaluation bundle needs its request.
pub fn validate_create_evaluation_bundle(bundle: &EvaluationBundle, held: &Vec<Vec<u8>>) -> (r:
    Result<ValidateCallbackResult, ValidationFailure>)
    ensures
        entry_outcome(EntryTypes::EvaluationBundle(*bundle), held@, r),
{
    require_record(held, &bundle.request_hash)?;
    Ok(ValidateCallbackResult::Valid)
}

/// A quorum bundle needs its request.
pub fn validate_create_quorum_bundle(bundle: &QuorumBundle, held: &Vec<Vec<u8>>) -> (r: Result<
    ValidateCallbackResult,
    ValidationFailure,
>)
    ensures
        entry_outcome(EntryTypes::QuorumBundle(*bundle), held@, r),
{
    require_record(held, &bundle.request_hash)?;
    Ok(ValidateCallbackResult::Valid)
}

/// Evidence needs a type and a severity of at most one million. Its manifest
/// lives in another DNA, so it is not looked up.
pub fn validate_create_validation_evidence(evidence: &ValidationEvidence) -> (r:
    ValidateCallbackResult)
    ensures
        match evidence_refusal(*evidence) {
            Some(msg) => refuses_with(r, msg),
            None => accepts(r),
        },
{
    if evidence.evidence_type.as_str().is_empty() {
        return invalid("ValidationEvidence requires a non-empty evidence_type");
    }
    if evidence.computed_severity > MAX_SEVERITY {
        return invalid("computed_severity must be 0-1_000_000");
    }
    ValidateCallbackResult::Valid
}

fn validate_create_entry(entry: &EntryTypes, held: &Vec<Vec<u8>>) -> (r: Result<
    ValidateCallbackResult,
    ValidationFailure,
>)
    ensures
        entry_outcome(*entry, held@, r),
{
    match entry {
        EntryTypes::ValidationRequest(_) => Ok(ValidateCallbackResult::Valid),
        EntryTypes::EvaluationCommitment(c) => validate_create_evaluation_commitment(c, held),
        EntryTypes::EvaluationBundle(b) => validate_create_evaluation_bundle(b, held),
        EntryTypes::QuorumBundle(b) => validate_create_quorum_bundle(b, held),
        EntryTypes::ValidationEvidence(e) => Ok(validate_create_validation_evidence(e)),
    }
}

/// The DNA's validation callback, given the records (by action hash) that the
/// host holds as valid. Stored entries and links may never be changed or
/// removed; new entries follow their type's rule; new links of every type are
/// accepted; a new agent must come right after its validation package.
pub fn validate(op: &ValidationOp<EntryTypes, LinkTypes>, held: &Vec<Vec<u8>>) -> (r: Result<
    ValidateCallbackResult,
    ValidationFailure,
>)
    ensures
        is_entry_change(*op) ==> r is Ok && refuses_with(
            r->Ok_0,
            "Coordination entries are immutable"@,
        ),
        is_link_removal(*op) ==> r is Ok && refuses_with(r->Ok_0, "Coordination links are permanent"@),
        op is RegisterCreateLink || op is StoreRecordCreateLink || op is Other ==> r is Ok
            && accepts(r->Ok_0),
        match *op {
            ValidationOp::StoreEntryCreate(e) | ValidationOp::StoreRecordCreate(e) => entry_outcome(
                e,
                held@,
                r,
            ),
            ValidationOp::CreateAgent { agent, previous } => r is Ok && match previous {
                PreviousAction::AgentValidationPkg { .. } => accepts(r->Ok_0),
                PreviousAction::Other => refuses_with(r->Ok_0, missing_pkg_message()),
            },
            _ => true,
        },
{
    match op {
        ValidationOp::StoreEntryCreate(entry) => validate_create_entry(entry, held),
        ValidationOp::StoreEntryUpdate => Ok(invalid("Coordination entries are immutable")),
        ValidationOp::RegisterUpdate => Ok(invalid("Coordination entries are immutable")),
        ValidationOp::RegisterDelete => Ok(invalid("Coordination entries are immutable")),
        ValidationOp::RegisterCreateLink { .. } => Ok(ValidateCallbackResult::Valid),
        ValidationOp::RegisterDeleteLink => Ok(invalid("Coordination links are permanent")),
        ValidationOp::StoreRecordCreate(entry) => validate_create_entry(entry, held),
        ValidationOp::StoreRecordUpdate => Ok(invalid("Coordination entries are immutable")),
        ValidationOp::StoreRecordDelete => Ok(invalid("Coordination entries are immutable")),
        ValidationOp::StoreRecordCreateLink { .. } => Ok(ValidateCallbackResult::Valid),
        ValidationOp::StoreRecordDeleteLink => Ok(invalid("Coordination links are permanent")),
        ValidationOp::CreateAgent { agent, previous } => match previous {
            PreviousAction::AgentValidationPkg { membrane_proof } => Ok(
                validate_agent_joining(agent, membrane_proof),
            ),
            PreviousAction::Other => Ok(
                invalid(
                    "The previous action for a `CreateAgent` action must be an `AgentValidationPkg`",
                ),
            ),
        },
        ValidationOp::Other => Ok(ValidateCallbackResult::Valid),
    }
}

} // verus!
