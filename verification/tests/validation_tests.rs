use toric::coordination_integrity as coord;
use toric::holochain::{
    LinkableHash, LinkableKind, PreviousAction, ValidateCallbackResult, ValidationFailure,
    ValidationOp,
};
use toric::mutual_credit_integrity as mc;
use toric::registry_integrity as reg;

fn invalid(msg: &str) -> ValidateCallbackResult {
    ValidateCallbackResult::Invalid(msg.to_string())
}

fn action(b: u8) -> LinkableHash {
    LinkableHash { kind: LinkableKind::Action, bytes: vec![b] }
}

fn entry(b: u8) -> LinkableHash {
    LinkableHash { kind: LinkableKind::Entry, bytes: vec![b] }
}

#[test]
fn transaction_amount_must_be_positive() {
    let tx = |amount| mc::Transaction {
        from_agent: vec![1],
        to_agent: vec![2],
        amount,
        metadata_blob: vec![],
    };
    assert_eq!(mc::validate_create_transaction(&tx(5)), ValidateCallbackResult::Valid);
    assert_eq!(
        mc::validate_create_transaction(&tx(0)),
        invalid("Transaction amount must be positive")
    );
    let op = ValidationOp::StoreRecordCreate(mc::EntryTypes::Transaction(tx(-1)));
    assert_eq!(mc::validate(&op), invalid("Transaction amount must be positive"));
    let op = ValidationOp::StoreEntryCreate(mc::EntryTypes::Transaction(tx(1)));
    assert_eq!(mc::validate(&op), ValidateCallbackResult::Valid);
}

#[test]
fn mutual_credit_is_append_only() {
    let ops: Vec<ValidationOp<mc::EntryTypes, mc::LinkTypes>> = vec![
        ValidationOp::StoreEntryUpdate,
        ValidationOp::RegisterUpdate,
        ValidationOp::RegisterDelete,
        ValidationOp::StoreRecordUpdate,
        ValidationOp::StoreRecordDelete,
    ];
    for op in &ops {
        assert_eq!(mc::validate(op), invalid("Mutual credit entries are immutable"));
    }
    let dels: Vec<ValidationOp<mc::EntryTypes, mc::LinkTypes>> =
        vec![ValidationOp::RegisterDeleteLink, ValidationOp::StoreRecordDeleteLink];
    for op in &dels {
        assert_eq!(mc::validate(op), invalid("Mutual credit links are permanent"));
    }
    let link = ValidationOp::RegisterCreateLink {
        link_type: mc::LinkTypes::AgentToTransactions,
        base: entry(1),
        target: action(2),
    };
    assert_eq!(mc::validate(&link), ValidateCallbackResult::Valid);
}

#[test]
fn agent_must_follow_validation_package() {
    let ok: ValidationOp<mc::EntryTypes, mc::LinkTypes> = ValidationOp::CreateAgent {
        agent: vec![1],
        previous: PreviousAction::AgentValidationPkg { membrane_proof: None },
    };
    assert_eq!(mc::validate(&ok), ValidateCallbackResult::Valid);
    let bad: ValidationOp<mc::EntryTypes, mc::LinkTypes> =
        ValidationOp::CreateAgent { agent: vec![1], previous: PreviousAction::Other };
    assert_eq!(
        mc::validate(&bad),
        invalid("The previous action for a `CreateAgent` action must be an `AgentValidationPkg`")
    );
    let data = mc::GenesisData { agent_key: vec![1], membrane_proof: None };
    assert_eq!(mc::genesis_self_check(&data), ValidateCallbackResult::Valid);
    assert_eq!(reg::validate_agent_joining(&vec![1], &None), ValidateCallbackResult::Valid);
}

#[test]
fn commitment_needs_request_and_sha256_length() {
    let c = |len: usize| coord::EvaluationCommitment {
        request_hash: vec![9],
        evaluator: vec![1],
        commitment_hash: vec![0; len],
    };
    let held = vec![vec![9u8]];
    assert_eq!(
        coord::validate_create_evaluation_commitment(&c(32), &held),
        Ok(ValidateCallbackResult::Valid)
    );
    assert_eq!(
        coord::validate_create_evaluation_commitment(&c(31), &held),
        Ok(invalid("Commitment hash must be 32 bytes (sha256)"))
    );
    assert_eq!(
        coord::validate_create_evaluation_commitment(&c(31), &vec![]),
        Err(ValidationFailure::UnresolvedRecord(vec![9]))
    );
}

#[test]
fn evidence_needs_type_and_bounded_severity() {
    let ev = |t: &str, sev| coord::ValidationEvidence {
        manifest_hash: vec![1],
        evidence_type: t.to_string(),
        expected: String::new(),
        actual: String::new(),
        computed_severity: sev,
        metadata_blob: vec![],
    };
    assert_eq!(coord::validate_create_validation_evidence(&ev("hash", 1_000_000)), ValidateCallbackResult::Valid);
    assert_eq!(
        coord::validate_create_validation_evidence(&ev("", 5)),
        invalid("ValidationEvidence requires a non-empty evidence_type")
    );
    assert_eq!(
        coord::validate_create_validation_evidence(&ev("hash", 1_000_001)),
        invalid("computed_severity must be 0-1_000_000")
    );
    let op = ValidationOp::StoreEntryCreate(coord::EntryTypes::ValidationEvidence(ev("", 0)));
    assert_eq!(
        coord::validate(&op, &vec![]),
        Ok(invalid("ValidationEvidence requires a non-empty evidence_type"))
    );
}

#[test]
fn coordination_bundles_need_their_request() {
    let bundle = coord::EvaluationBundle { request_hash: vec![4], evaluator: vec![1], metadata_blob: vec![] };
    let op = ValidationOp::StoreRecordCreate(coord::EntryTypes::EvaluationBundle(bundle));
    assert_eq!(coord::validate(&op, &vec![]), Err(ValidationFailure::UnresolvedRecord(vec![4])));
    assert_eq!(coord::validate(&op, &vec![vec![4]]), Ok(ValidateCallbackResult::Valid));
    let q = coord::QuorumBundle {
        request_hash: vec![4],
        evaluation_hashes: vec![],
        reached_quorum: true,
        metadata_blob: vec![],
    };
    assert_eq!(coord::validate_create_quorum_bundle(&q, &vec![vec![3], vec![4]]), Ok(ValidateCallbackResult::Valid));
    let del: ValidationOp<coord::EntryTypes, coord::LinkTypes> = ValidationOp::RegisterDeleteLink;
    assert_eq!(coord::validate(&del, &vec![]), Ok(invalid("Coordination links are permanent")));
    let upd: ValidationOp<coord::EntryTypes, coord::LinkTypes> = ValidationOp::RegisterUpdate;
    assert_eq!(coord::validate(&upd, &vec![]), Ok(invalid("Coordination entries are immutable")));
}

#[test]
fn warrant_needs_manifest_and_blob() {
    let w = |blob: Vec<u8>| reg::Warrant { manifest_hash: vec![7], metadata_blob: blob };
    let held = vec![vec![7u8]];
    assert_eq!(reg::validate_create_warrant(&w(vec![b'{']), &held), Ok(ValidateCallbackResult::Valid));
    assert_eq!(
        reg::validate_create_warrant(&w(vec![]), &held),
        Ok(invalid("Warrant metadata blob cannot be empty"))
    );
    assert_eq!(reg::validate_create_warrant(&w(vec![]), &vec![]), Err(ValidationFailure::UnresolvedRecord(vec![7])));
    let a = reg::Attestation { manifest_hash: vec![7], metadata_blob: vec![] };
    assert_eq!(reg::validate_create_attestation(&a, &held), Ok(ValidateCallbackResult::Valid));
    assert_eq!(reg::validate_create_attestation(&a, &vec![vec![8]]), Err(ValidationFailure::UnresolvedRecord(vec![7])));
}

#[test]
fn registry_links_need_the_right_kinds_of_hash() {
    let held = vec![vec![2u8], vec![3u8]];
    assert_eq!(reg::validate_create_link_agent_to_manifest(&entry(1), &action(2), &held), Ok(ValidateCallbackResult::Valid));
    assert_eq!(reg::validate_create_link_agent_to_manifest(&action(1), &action(2), &held), Err(ValidationFailure::BaseNotAgent));
    assert_eq!(reg::validate_create_link_agent_to_manifest(&entry(1), &entry(2), &held), Err(ValidationFailure::TargetNotAction));
    assert_eq!(
        reg::validate_create_link_agent_to_manifest(&entry(1), &action(9), &held),
        Err(ValidationFailure::UnresolvedRecord(vec![9]))
    );
    assert_eq!(reg::validate_create_link_manifest_to_attestation(&action(2), &entry(5), &held), Ok(ValidateCallbackResult::Valid));
    assert_eq!(reg::validate_create_link_manifest_to_attestation(&entry(2), &action(5), &held), Err(ValidationFailure::BaseNotAction));
    assert_eq!(reg::validate_create_link_manifest_to_warrant(&action(2), &action(3), &held), Ok(ValidateCallbackResult::Valid));
    assert_eq!(
        reg::validate_create_link_manifest_to_warrant(&action(2), &action(4), &held),
        Err(ValidationFailure::UnresolvedRecord(vec![4]))
    );
    assert_eq!(
        reg::validate_create_link_attestation_to_warrant(&action(5), &entry(4), &held),
        Err(ValidationFailure::UnresolvedRecord(vec![5]))
    );
    assert_eq!(reg::validate_create_link_attestation_to_warrant(&action(3), &entry(4), &held), Err(ValidationFailure::TargetNotAction));
    let op = ValidationOp::StoreRecordCreateLink {
        link_type: reg::LinkTypes::ManifestToUpstream,
        base: entry(1),
        target: entry(1),
    };
    assert_eq!(reg::validate(&op, &vec![]), Ok(ValidateCallbackResult::Valid));
}

#[test]
fn registry_is_append_only() {
    let updates: Vec<ValidationOp<reg::EntryTypes, reg::LinkTypes>> =
        vec![ValidationOp::StoreEntryUpdate, ValidationOp::RegisterUpdate, ValidationOp::StoreRecordUpdate];
    for op in &updates {
        assert_eq!(reg::validate(op, &vec![]), Ok(invalid("Registry entries are immutable — updates are not permitted")));
    }
    let deletes: Vec<ValidationOp<reg::EntryTypes, reg::LinkTypes>> =
        vec![ValidationOp::RegisterDelete, ValidationOp::StoreRecordDelete];
    for op in &deletes {
        assert_eq!(reg::validate(op, &vec![]), Ok(invalid("Registry entries are immutable — deletes are not permitted")));
    }
    let link_del: ValidationOp<reg::EntryTypes, reg::LinkTypes> = ValidationOp::StoreRecordDeleteLink;
    assert_eq!(reg::validate(&link_del, &vec![]), Ok(invalid("Registry links are permanent — deletes are not permitted")));
    let other: ValidationOp<reg::EntryTypes, reg::LinkTypes> = ValidationOp::Other;
    assert_eq!(reg::validate(&other, &vec![]), Ok(ValidateCallbackResult::Valid));
}

#[test]
fn coordination_looks_up_only_the_request() {
    let commitment = coord::EntryTypes::EvaluationCommitment(coord::EvaluationCommitment {
        request_hash: vec![9],
        evaluator: vec![1],
        commitment_hash: vec![0; 32],
    });
    assert_eq!(coord::required_records(&ValidationOp::StoreRecordCreate(commitment)), vec![vec![9u8]]);
    let evidence = coord::EntryTypes::ValidationEvidence(coord::ValidationEvidence {
        manifest_hash: vec![7],
        evidence_type: "hash".to_string(),
        expected: String::new(),
        actual: String::new(),
        computed_severity: 0,
        metadata_blob: vec![],
    });
    assert_eq!(coord::required_records(&ValidationOp::StoreEntryCreate(evidence)), Vec::<Vec<u8>>::new());
    // A manifest of the registry DNA at the base of a link is never looked up.
    for link_type in [coord::LinkTypes::ManifestToRequest, coord::LinkTypes::ManifestToEvidence, coord::LinkTypes::RequestToCommitment] {
        let op = ValidationOp::RegisterCreateLink { link_type, base: action(7), target: action(8) };
        assert_eq!(coord::required_records(&op), Vec::<Vec<u8>>::new());
        assert_eq!(coord::validate(&op, &vec![]), Ok(ValidateCallbackResult::Valid));
    }
}

#[test]
fn registry_looks_up_after_the_kind_checks() {
    let link = |link_type, base, target| ValidationOp::StoreRecordCreateLink { link_type, base, target };
    assert_eq!(reg::required_records(&link(reg::LinkTypes::AgentToManifest, entry(1), action(2))), vec![vec![2u8]]);
    assert_eq!(reg::required_records(&link(reg::LinkTypes::AgentToManifest, action(1), action(2))), Vec::<Vec<u8>>::new());
    assert_eq!(reg::required_records(&link(reg::LinkTypes::AgentToManifest, entry(1), entry(2))), Vec::<Vec<u8>>::new());
    assert_eq!(reg::required_records(&link(reg::LinkTypes::ManifestToAttestation, action(3), action(4))), vec![vec![3u8]]);
    assert_eq!(reg::required_records(&link(reg::LinkTypes::ManifestToWarrant, action(3), entry(4))), vec![vec![3u8]]);
    assert_eq!(
        reg::required_records(&link(reg::LinkTypes::AttestationToWarrant, action(3), action(4))),
        vec![vec![3u8], vec![4u8]]
    );
    assert_eq!(reg::required_records(&link(reg::LinkTypes::ManifestToUpstream, action(3), action(4))), Vec::<Vec<u8>>::new());
    let warrant = reg::EntryTypes::Warrant(reg::Warrant { manifest_hash: vec![5], metadata_blob: vec![1] });
    assert_eq!(reg::required_records(&ValidationOp::StoreEntryCreate(warrant)), vec![vec![5u8]]);
    assert_eq!(reg::required_records(&ValidationOp::RegisterDeleteLink), Vec::<Vec<u8>>::new());
}
