use toric::coordination::{
    active_commit_agents, check_reveal_deadline, check_revealed_commitment, commitment_entry,
    evaluation_counted, find_commitment, new_validation_request, parse_evaluation,
    CoordinationError, EvaluationVote, REVEAL_DEADLINE_US,
};
use toric::coordination_integrity::EvaluationCommitment;
use toric::holochain::{LinkInfo, LinkableHash, LinkableKind};

fn commit(author: u8, ts: i64) -> LinkInfo {
    LinkInfo {
        author: vec![author],
        target: LinkableHash { kind: LinkableKind::Action, bytes: vec![100 + author] },
        timestamp: ts,
    }
}

#[test]
fn commitment_hash_must_be_32_bytes() {
    assert_eq!(
        commitment_entry(vec![1], vec![2], vec![0; 31]),
        Err(CoordinationError::CommitmentHashLength)
    );
    assert_eq!(
        commitment_entry(vec![1], vec![2], vec![7; 32]),
        Ok(EvaluationCommitment { request_hash: vec![1], evaluator: vec![2], commitment_hash: vec![7; 32] })
    );
    assert_eq!(CoordinationError::CommitmentHashLength.fixed_text().unwrap(), "Commitment hash must be 32 bytes");
}

#[test]
fn only_live_commitments_are_active() {
    let now = 1_000_000_000;
    let commits = vec![commit(1, now - REVEAL_DEADLINE_US), commit(2, now - REVEAL_DEADLINE_US - 1), commit(3, now)];
    assert_eq!(active_commit_agents(&commits, now), vec![vec![1], vec![3]]);
    assert_eq!(active_commit_agents(&vec![], now), Vec::<Vec<u8>>::new());
}

#[test]
fn evaluations_filtered_only_under_commit_reveal() {
    assert!(evaluation_counted(false, &vec![], &vec![5]));
    assert!(evaluation_counted(true, &vec![vec![5], vec![6]], &vec![6]));
    assert!(!evaluation_counted(true, &vec![vec![5]], &vec![6]));
    // Every commitment expired: nobody's evaluation counts.
    assert!(!evaluation_counted(true, &vec![], &vec![5]));
}

#[test]
fn reveal_deadline_applies_to_first_commitment() {
    let now = 500_000_000;
    let commits = vec![commit(2, now), commit(1, now - REVEAL_DEADLINE_US - 10), commit(1, now)];
    assert_eq!(
        check_reveal_deadline(&commits, &vec![1], now),
        Err(CoordinationError::RevealDeadlineExceeded { elapsed_us: (REVEAL_DEADLINE_US + 10) as i128 })
    );
    assert_eq!(check_reveal_deadline(&commits, &vec![2], now), Ok(()));
    assert_eq!(check_reveal_deadline(&commits, &vec![3], now), Ok(()));
    assert_eq!(find_commitment(&commits, &vec![1]), Some(1));
    assert_eq!(find_commitment(&commits, &vec![3]), None);
}

#[test]
fn revealed_commitment_must_hold_a_digest() {
    let c = |n: usize| EvaluationCommitment { request_hash: vec![1], evaluator: vec![1], commitment_hash: vec![0; n] };
    assert_eq!(check_revealed_commitment(&c(32)), Ok(()));
    assert_eq!(check_revealed_commitment(&c(8)), Err(CoordinationError::InvalidCommitmentLength));
    assert_eq!(CoordinationError::InvalidCommitmentLength.fixed_text().unwrap(), "Invalid commitment hash length");
    assert_eq!(CoordinationError::RevealDeadlineExceeded { elapsed_us: 1 }.fixed_text(), None);
}

#[test]
fn evaluation_vote_is_read_from_json_after_prefix() {
    let blob = b"xx{\"passed\": true, \"score\": 0.9, \"details\": \"fine\"}".to_vec();
    assert_eq!(
        parse_evaluation(&blob),
        Some(EvaluationVote { passed: true, details: Some("fine".to_string()) })
    );
    let blob = b"{\"score\": 0.2}".to_vec();
    assert_eq!(parse_evaluation(&blob), Some(EvaluationVote { passed: false, details: None }));
    assert_eq!(parse_evaluation(&b"not json".to_vec()), None);
    assert_eq!(parse_evaluation(&b"{\"passed\": tru".to_vec()), None);
}

#[test]
fn validation_request_is_by_hash() {
    let r = new_validation_request(vec![1], vec![2], vec![3]);
    assert_eq!(r.validation_type, "hash");
    assert!(r.required_capabilities.is_empty());
    assert_eq!(r.manifest_hash, vec![1]);
}
