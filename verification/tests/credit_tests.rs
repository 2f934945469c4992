use toric::mutual_credit::{
    admission_decision, attestation_basis, attestation_outcome, balance_status, check_amount,
    check_within_credit, compute_balance, expand_credit_supply, try_compute_balance, AdmissionError, AttestationBasis, AttestationOutcome,
    FibonacciResult, TransactError, BOOTSTRAP_ATTESTATIONS, GENESIS_CREDIT_SUPPLY,
};
use toric::mutual_credit_integrity::{NetworkState, Transaction};

fn tx(from: u8, to: u8, amount: i64) -> Transaction {
    Transaction { from_agent: vec![from], to_agent: vec![to], amount, metadata_blob: vec![] }
}

#[test]
fn balance_sums_sent_and_received() {
    let txs = vec![tx(1, 2, 10), tx(2, 1, 3), tx(3, 4, 100), tx(1, 3, 5)];
    assert_eq!(compute_balance(&vec![1], &txs), -12);
    assert_eq!(compute_balance(&vec![2], &txs), 7);
    assert_eq!(compute_balance(&vec![3], &txs), -95);
    assert_eq!(compute_balance(&vec![9], &txs), 0);
}

#[test]
fn balances_of_all_parties_sum_to_zero() {
    let txs = vec![tx(1, 2, 10), tx(2, 3, 4), tx(2, 2, 9), tx(3, 1, 7), tx(1, 3, 1)];
    let total: i64 = [1u8, 2, 3].iter().map(|a| compute_balance(&vec![*a], &txs)).sum();
    assert_eq!(total, 0);
}

#[test]
fn self_transfer_moves_nothing() {
    let txs = vec![tx(5, 5, 8), tx(5, 6, 3)];
    assert_eq!(compute_balance(&vec![5], &txs), -3);
    assert_eq!(compute_balance(&vec![6], &txs), 3);
    assert_eq!(try_compute_balance(&vec![5], &vec![tx(5, 5, i64::MAX), tx(5, 5, i64::MAX)]), Some(0));
}

#[test]
fn amount_must_be_positive() {
    assert_eq!(check_amount(0), Err(TransactError::NonPositiveAmount));
    assert_eq!(check_amount(-4), Err(TransactError::NonPositiveAmount));
    assert_eq!(check_amount(1), Ok(()));
    assert_eq!(TransactError::NonPositiveAmount.message(), "Transaction amount must be positive");
}

#[test]
fn transfer_may_reach_but_not_pass_the_limit() {
    assert_eq!(check_within_credit(0, 376, -376), Ok(()));
    assert_eq!(check_within_credit(0, 377, -376), Err(TransactError::CreditLimitExceeded));
    assert_eq!(check_within_credit(i64::MIN, 1, i64::MIN), Err(TransactError::CreditLimitExceeded));
    assert_eq!(
        TransactError::CreditLimitExceeded.message(),
        "Transaction would exceed credit limit"
    );
}

#[test]
fn accepted_transfer_keeps_sender_above_limit() {
    let limit = -20;
    let mut txs = vec![tx(1, 2, 15)];
    let balance = compute_balance(&vec![1], &txs);
    assert!(check_within_credit(balance, 5, limit).is_ok());
    txs.push(tx(1, 2, 5));
    assert!(compute_balance(&vec![1], &txs) >= limit);
    assert!(check_within_credit(compute_balance(&vec![1], &txs), 1, limit).is_err());
}

#[test]
fn account_at_its_limit_is_frozen() {
    let r = balance_status(vec![7], -376, -376);
    assert!(r.is_frozen);
    assert_eq!(r.agent, vec![7]);
    assert!(!balance_status(vec![7], -375, -376).is_frozen);
}

#[test]
fn first_attestation_starts_from_genesis() {
    let basis = attestation_basis(&None);
    assert_eq!(
        basis,
        AttestationBasis {
            attestation_count: 1,
            credit_supply: GENESIS_CREDIT_SUPPLY,
            cycle: 0,
            threshold: BOOTSTRAP_ATTESTATIONS,
            phase: 0,
        }
    );
    match attestation_outcome(&basis, &vec![], 1597, 9) {
        AttestationOutcome::Record(state, res) => {
            assert_eq!(
                state,
                NetworkState {
                    attestation_count: 1,
                    next_fibonacci_threshold: 21,
                    credit_supply: 987,
                    cycle: 0,
                    phase: 0,
                }
            );
            assert!(!res.threshold_crossed);
            assert_eq!(res.new_credit_supply, None);
            assert_eq!(res.admission_allowance, None);
            assert_eq!(res.next_threshold, 21);
        }
        other => panic!("unexpected {:?}", other),
    }
}

#[test]
fn twenty_first_attestation_crosses_into_governed_phase() {
    let current = NetworkState {
        attestation_count: 20,
        next_fibonacci_threshold: 21,
        credit_supply: 987,
        cycle: 0,
        phase: 0,
    };
    let basis = attestation_basis(&Some(current));
    assert_eq!(basis.attestation_count, 21);
    match attestation_outcome(&basis, &vec![current], 1597, 0) {
        AttestationOutcome::Record(state, res) => {
            assert_eq!(
                state,
                NetworkState {
                    attestation_count: 21,
                    next_fibonacci_threshold: 34,
                    credit_supply: 1597,
                    cycle: 1,
                    phase: 1,
                }
            );
            assert_eq!(
                res,
                FibonacciResult {
                    attestation_count: 21,
                    threshold_crossed: true,
                    new_credit_supply: Some(1597),
                    admission_allowance: Some(0),
                    next_threshold: 34,
                }
            );
        }
        other => panic!("unexpected {:?}", other),
    }
}

#[test]
fn already_recorded_count_is_not_written_again() {
    let basis = AttestationBasis {
        attestation_count: 21,
        credit_supply: 987,
        cycle: 0,
        threshold: 21,
        phase: 0,
    };
    let other_writer = NetworkState {
        attestation_count: 21,
        next_fibonacci_threshold: 34,
        credit_supply: 1597,
        cycle: 1,
        phase: 1,
    };
    let unrelated = NetworkState { attestation_count: 19, ..other_writer };
    match attestation_outcome(&basis, &vec![unrelated, other_writer], 5, 5) {
        AttestationOutcome::AlreadyRecorded(res) => {
            assert_eq!(
                res,
                FibonacciResult {
                    attestation_count: 21,
                    threshold_crossed: true,
                    new_credit_supply: Some(1597),
                    admission_allowance: None,
                    next_threshold: 34,
                }
            );
        }
        other => panic!("unexpected {:?}", other),
    }
    let not_crossed = NetworkState { next_fibonacci_threshold: 21, ..other_writer };
    match attestation_outcome(&basis, &vec![not_crossed], 5, 5) {
        AttestationOutcome::AlreadyRecorded(res) => {
            assert!(!res.threshold_crossed);
            assert_eq!(res.new_credit_supply, None);
        }
        other => panic!("unexpected {:?}", other),
    }
}

#[test]
fn governed_phase_below_threshold_keeps_phase_and_supply() {
    let current = NetworkState {
        attestation_count: 25,
        next_fibonacci_threshold: 34,
        credit_supply: 1597,
        cycle: 1,
        phase: 1,
    };
    match attestation_outcome(&attestation_basis(&Some(current)), &vec![], 2584, 3) {
        AttestationOutcome::Record(state, res) => {
            assert_eq!(state, NetworkState { attestation_count: 26, ..current });
            assert!(!res.threshold_crossed);
        }
        other => panic!("unexpected {:?}", other),
    }
}

#[test]
fn admission_gate() {
    let governed = NetworkState {
        attestation_count: 25,
        next_fibonacci_threshold: 34,
        credit_supply: 1597,
        cycle: 1,
        phase: 1,
    };
    let genesis = NetworkState { phase: 0, ..governed };
    assert_eq!(admission_decision(&None, 0), Ok(()));
    assert_eq!(admission_decision(&Some(genesis), 0), Ok(()));
    assert_eq!(admission_decision(&Some(governed), 1), Ok(()));
    assert_eq!(admission_decision(&Some(governed), 0), Err(AdmissionError::GateClosed));
    assert!(AdmissionError::GateClosed.message().starts_with("Admission gate closed"));
}

#[test]
fn balance_overflow_is_reported() {
    let txs = vec![tx(2, 1, i64::MAX), tx(3, 1, 1)];
    assert_eq!(try_compute_balance(&vec![1], &txs), None);
    assert_eq!(try_compute_balance(&vec![2], &txs), Some(-i64::MAX));
    let txs = vec![tx(2, 1, i64::MAX), tx(1, 3, 1)];
    assert_eq!(try_compute_balance(&vec![1], &txs), Some(i64::MAX - 1));
}

#[test]
fn thresholds_stay_on_the_fibonacci_sequence() {
    // Walk the network from genesis through three crossings: each new
    // threshold is the next Fibonacci number above the crossing count.
    let mut current: Option<NetworkState> = None;
    let mut thresholds = vec![];
    let mut supply = GENESIS_CREDIT_SUPPLY;
    for _ in 0..60 {
        let basis = attestation_basis(&current);
        let expanded = expand_credit_supply(supply);
        match attestation_outcome(&basis, &vec![], expanded, 0) {
            AttestationOutcome::Record(state, res) => {
                if res.threshold_crossed {
                    thresholds.push(state.next_fibonacci_threshold);
                    assert_eq!(state.credit_supply, expanded);
                    supply = expanded;
                } else {
                    assert_eq!(state.credit_supply, supply);
                }
                assert!(state.next_fibonacci_threshold > state.attestation_count);
                let before = current.map(|c| (c.phase, c.cycle, c.credit_supply)).unwrap_or((0, 0, supply));
                assert!(state.phase <= 1 && state.phase >= before.0);
                assert!(state.cycle >= before.1 && state.credit_supply >= before.2);
                current = Some(state);
            }
            other => panic!("unexpected {:?}", other),
        }
    }
    assert_eq!(thresholds, vec![34, 55, 89]);
    assert_eq!(supply, 4181);
    assert_eq!(current.unwrap().cycle, 3);
    assert_eq!(current.unwrap().attestation_count, 60);
    assert_eq!(BOOTSTRAP_ATTESTATIONS, 21);
}

#[test]
fn late_crossing_jumps_to_next_fibonacci_above_count() {
    let basis = AttestationBasis {
        attestation_count: 40,
        credit_supply: 1597,
        cycle: 1,
        threshold: 34,
        phase: 1,
    };
    match attestation_outcome(&basis, &vec![], 2584, 7) {
        AttestationOutcome::Record(state, res) => {
            assert_eq!(state.next_fibonacci_threshold, 55);
            assert_eq!(state.cycle, 2);
            assert_eq!(res.admission_allowance, Some(7));
        }
        other => panic!("unexpected {:?}", other),
    }
}

#[test]
fn second_writer_reports_what_the_first_wrote() {
    let current = NetworkState {
        attestation_count: 33,
        next_fibonacci_threshold: 34,
        credit_supply: 1597,
        cycle: 1,
        phase: 1,
    };
    let basis = attestation_basis(&Some(current));
    let (state, first) = match attestation_outcome(&basis, &vec![current], 2584, 4) {
        AttestationOutcome::Record(state, res) => (state, res),
        other => panic!("unexpected {:?}", other),
    };
    assert_eq!(first.admission_allowance, Some(4));
    match attestation_outcome(&basis, &vec![current, state], 9999, 9) {
        AttestationOutcome::AlreadyRecorded(second) => {
            assert_eq!(second, FibonacciResult { admission_allowance: None, ..first });
        }
        other => panic!("unexpected {:?}", other),
    }
}

#[test]
fn supply_expands_along_the_fibonacci_sequence() {
    assert_eq!(expand_credit_supply(GENESIS_CREDIT_SUPPLY), 1597);
    assert_eq!(expand_credit_supply(1597), 2584);
    assert_eq!(expand_credit_supply(1000), 1597);
    assert_eq!(expand_credit_supply(0), 2);
    assert_eq!(expand_credit_supply(2), 3);
    assert_eq!(expand_credit_supply(4660046610375530309), 7540113804746346429);
}
