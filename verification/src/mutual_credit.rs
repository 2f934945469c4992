//! Mutual credit bookkeeping: balances as the sum of an agent's transfers,
//! the checks a transfer must pass, credit-limit ceilings, the admission gate,
//! and the network state that grows along the Fibonacci sequence.
use vstd::prelude::*;
use vstd::string::StringExecFns;
use crate::fibonacci::{
    fib, first_fib_index_above, lemma_fib_93, lemma_fib_monotone, lemma_fib_positive, next_fibonacci,
};
use crate::holochain::bytes_equal;
use crate::mutual_credit_integrity::{NetworkState, Transaction};

verus! {

/// Credit supply before the first Fibonacci expansion: F(16).
pub const GENESIS_CREDIT_SUPPLY: i64 = 987;

/// Attestations needed before the first expansion: F(8).
pub const BOOTSTRAP_ATTESTATIONS: u64 = 21;

// ─────────────────────────────────────────────
// Balances
// ─────────────────────────────────────────────

/// How one transaction moves `agent`'s balance: a sender pays the amount, a
/// receiver gains it, anyone else is untouched. A transfer to oneself moves
/// nothing.
pub open spec fn balance_delta(agent: Seq<u8>, tx: Transaction) -> int {
    if tx.from_agent@ == tx.to_agent@ {
        0
    } else if tx.from_agent@ == agent {
        -tx.amount
    } else if tx.to_agent@ == agent {
        tx.amount as int
    } else {
        0
    }
}

/// An agent's balance after a sequence of transactions, starting from zero.
pub open spec fn balance_of(agent: Seq<u8>, txs: Seq<Transaction>) -> int
    decreases txs.len(),
{
    if txs.len() == 0 {
        0
    } else {
        balance_of(agent, txs.drop_last()) + balance_delta(agent, txs.last())
    }
}

/// Every running balance of `agent` over `txs` fits in an `i64`.
pub open spec fn running_balances_fit(agent: Seq<u8>, txs: Seq<Transaction>) -> bool {
    forall|i: int|
        0 <= i <= txs.len() ==> i64::MIN <= #[trigger] balance_of(agent, txs.take(i)) <= i64::MAX
}

/// The balance of `agent` over the transactions linked to it, in link order.
pub fn compute_balance(agent: &Vec<u8>, txs: &Vec<Transaction>) -> (r: i64)
    requires
        running_balances_fit(agent@, txs@),
    ensures
        r == balance_of(agent@, txs@),
{
    let mut balance: i64 = 0;
    let mut i: usize = 0;
    assert(txs@.take(0) =~= Seq::<Transaction>::empty());
    while i < txs.len()
        invariant
            i <= txs.len(),
            running_balances_fit(agent@, txs@),
            balance == balance_of(agent@, txs@.take(i as int)),
        decreases txs.len() - i,
    {
        let tx = &txs[i];
        assert(txs@.take(i as int + 1).drop_last() =~= txs@.take(i as int));
        assert(txs@.take(i as int + 1).last() == txs@[i as int]);
        assert(i64::MIN <= balance_of(agent@, txs@.take(i as int + 1)) <= i64::MAX);
        if bytes_equal(&tx.from_agent, &tx.to_agent) {
        } else if bytes_equal(&tx.from_agent, agent) {
            balance = balance - tx.amount;
        } else if bytes_equal(&tx.to_agent, agent) {
            balance = balance + tx.amount;
        }
        i = i + 1;
    }
    assert(txs@.take(txs.len() as int) =~= txs@);
    balance
}

/// The balance of `agent` over `txs`, or `None` when some running balance
/// would leave the `i64` range.
pub fn try_compute_balance(agent: &Vec<u8>, txs: &Vec<Transaction>) -> (r: Option<i64>)
    ensures
        r is Some <==> running_balances_fit(agent@, txs@),
        r is Some ==> r->0 == balance_of(agent@, txs@),
{
    let mut balance: i64 = 0;
    let mut i: usize = 0;
    assert(txs@.take(0) =~= Seq::<Transaction>::empty());
    while i < txs.len()
        invariant
            i <= txs.len(),
            balance == balance_of(agent@, txs@.take(i as int)),
            forall|j: int| 0 <= j <= i ==> i64::MIN <= #[trigger] balance_of(agent@, txs@.take(j)) <= i64::MAX,
        decreases txs.len() - i,
    {
        let tx = &txs[i];
        assert(txs@.take(i as int + 1).drop_last() =~= txs@.take(i as int));
        assert(txs@.take(i as int + 1).last() == txs@[i as int]);
        let next: i128 = if bytes_equal(&tx.from_agent, &tx.to_agent) {
            balance as i128
        } else if bytes_equal(&tx.from_agent, agent) {
            (balance as i128) - (tx.amount as i128)
        } else if bytes_equal(&tx.to_agent, agent) {
            (balance as i128) + (tx.amount as i128)
        } else {
            balance as i128
        };
        if next < i64::MIN as i128 || next > i64::MAX as i128 {
            assert(!running_balances_fit(agent@, txs@)) by {
                assert(balance_of(agent@, txs@.take(i as int + 1)) == next);
            }
            return None;
        }
        balance = next as i64;
        i = i + 1;
    }
    assert(txs@.take(txs.len() as int) =~= txs@);
    Some(balance)
}

/// Appending a transaction moves each agent's balance by exactly that
/// transaction's delta.
pub proof fn law_balance_after_transaction(agent: Seq<u8>, txs: Seq<Transaction>, tx: Transaction)
    ensures
        balance_of(agent, txs.push(tx)) == balance_of(agent, txs) + balance_delta(agent, tx),
{
    assert(txs.push(tx).drop_last() =~= txs);
}

/// How balances move, stated transaction by transaction: with no transactions
/// every balance is zero; a transfer between two different agents lowers the
/// sender's balance by the amount, raises the receiver's by it and leaves every
/// other balance alone; a transfer to oneself leaves every balance alone.
pub proof fn law_balance_moves(agent: Seq<u8>, txs: Seq<Transaction>, tx: Transaction)
    ensures
        balance_of(agent, Seq::<Transaction>::empty()) == 0,
        tx.from_agent@ == tx.to_agent@ ==> balance_of(agent, txs.push(tx)) == balance_of(agent, txs),
        tx.from_agent@ != tx.to_agent@ && agent == tx.from_agent@ ==> balance_of(agent, txs.push(tx))
            == balance_of(agent, txs) - tx.amount,
        tx.from_agent@ != tx.to_agent@ && agent == tx.to_agent@ ==> balance_of(agent, txs.push(tx))
            == balance_of(agent, txs) + tx.amount,
        agent != tx.from_agent@ && agent != tx.to_agent@ ==> balance_of(agent, txs.push(tx)) == balance_of(
            agent,
            txs,
        ),
{
    law_balance_after_transaction(agent, txs, tx);
}

/// The sum of the balances of a list of agents.
pub open spec fn total_balance(agents: Seq<Seq<u8>>, txs: Seq<Transaction>) -> int
    decreases agents.len(),
{
    if agents.len() == 0 {
        0
    } else {
        total_balance(agents.drop_last(), txs) + balance_of(agents.last(), txs)
    }
}

/// The sum of one transaction's deltas over a list of agents.
pub open spec fn total_delta(agents: Seq<Seq<u8>>, tx: Transaction) -> int
    decreases agents.len(),
{
    if agents.len() == 0 {
        0
    } else {
        total_delta(agents.drop_last(), tx) + balance_delta(agents.last(), tx)
    }
}

/// Both parties of `tx` are listed.
pub open spec fn is_transfer_among(agents: Seq<Seq<u8>>, tx: Transaction) -> bool {
    &&& agents.contains(tx.from_agent@)
    &&& agents.contains(tx.to_agent@)
}

proof fn lemma_total_delta_count(agents: Seq<Seq<u8>>, tx: Transaction)
    requires
        agents.no_duplicates(),
        tx.from_agent@ != tx.to_agent@,
    ensures
        total_delta(agents, tx) == (if agents.contains(tx.from_agent@) {
            -tx.amount
        } else {
            0
        }) + (if agents.contains(tx.to_agent@) {
            tx.amount as int
        } else {
            0
        }),
    decreases agents.len(),
{
    if agents.len() > 0 {
        let rest = agents.drop_last();
        let last = agents.last();
        assert(rest.no_duplicates());
        lemma_total_delta_count(rest, tx);
        assert forall|x: Seq<u8>| agents.contains(x) <==> (rest.contains(x) || x == last) by {
            if agents.contains(x) {
                let j = choose|j: int| 0 <= j < agents.len() && agents[j] == x;
                if j < agents.len() - 1 {
                    assert(rest[j] == x);
                }
            }
            if rest.contains(x) {
                let j = choose|j: int| 0 <= j < rest.len() && rest[j] == x;
                assert(agents[j] == x);
            }
            if x == last {
                assert(agents[agents.len() - 1] == x);
            }
        }
        assert(!rest.contains(last)) by {
            if rest.contains(last) {
                let j = choose|j: int| 0 <= j < rest.len() && rest[j] == last;
                assert(agents[j] == agents[agents.len() - 1]);
            }
        }
    }
}

proof fn lemma_total_delta_self(agents: Seq<Seq<u8>>, tx: Transaction)
    requires
        tx.from_agent@ == tx.to_agent@,
    ensures
        total_delta(agents, tx) == 0,
    decreases agents.len(),
{
    if agents.len() > 0 {
        lemma_total_delta_self(agents.drop_last(), tx);
    }
}

proof fn lemma_total_balance_step(agents: Seq<Seq<u8>>, txs: Seq<Transaction>, tx: Transaction)
    ensures
        total_balance(agents, txs.push(tx)) == total_balance(agents, txs) + total_delta(agents, tx),
    decreases agents.len(),
{
    if agents.len() > 0 {
        lemma_total_balance_step(agents.drop_last(), txs, tx);
        law_balance_after_transaction(agents.last(), txs, tx);
    }
}

/// Sum-zero accounting: over any list of distinct agents that includes both
/// parties of every transaction, the balances add up to zero. Credit is never
/// created or destroyed by transfers, a transfer to oneself included.
pub proof fn law_sum_zero(agents: Seq<Seq<u8>>, txs: Seq<Transaction>)
    requires
        agents.no_duplicates(),
        forall|i: int| 0 <= i < txs.len() ==> is_transfer_among(agents, #[trigger] txs[i]),
    ensures
        total_balance(agents, txs) == 0,
    decreases txs.len(),
{
    if txs.len() == 0 {
        assert(txs =~= Seq::<Transaction>::empty());
        lemma_total_balance_empty(agents);
    } else {
        let rest = txs.drop_last();
        assert forall|i: int| 0 <= i < rest.len() implies is_transfer_among(agents, #[trigger] rest[i]) by {
            assert(rest[i] == txs[i]);
        }
        law_sum_zero(agents, rest);
        assert(is_transfer_among(agents, txs[txs.len() - 1]));
        assert(rest.push(txs.last()) =~= txs);
        if txs.last().from_agent@ == txs.last().to_agent@ {
            lemma_total_delta_self(agents, txs.last());
        } else {
            lemma_total_delta_count(agents, txs.last());
        }
        lemma_total_balance_step(agents, rest, txs.last());
    }
}

proof fn lemma_total_balance_empty(agents: Seq<Seq<u8>>)
    ensures
        total_balance(agents, Seq::<Transaction>::empty()) == 0,
    decreases agents.len(),
{
    if agents.len() > 0 {
        lemma_total_balance_empty(agents.drop_last());
    }
}

// ─────────────────────────────────────────────
// Transfers
// ─────────────────────────────────────────────

/// Why a transfer is refused.
#[derive(Debug, Clone, Copy, PartialEq, Eq)]
pub enum TransactError {
    NonPositiveAmount,
    CreditLimitExceeded,
}

impl TransactError {
    /// The text each refusal is reported with.
    pub open spec fn message_spec(self) -> Seq<char> {
        match self {
            TransactError::NonPositiveAmount => "Transaction amount must be positive"@,
            TransactError::CreditLimitExceeded => "Transaction would exceed credit limit"@,
        }
    }

    /// The text the error is reported with.
    pub fn message(&self) -> (r: String)
        ensures
            r@ == self.message_spec(),
    {
        match self {
            TransactError::NonPositiveAmount => String::from_str(
                "Transaction amount must be positive",
            ),
            TransactError::CreditLimitExceeded => String::from_str(
                "Transaction would exceed credit limit",
            ),
        }
    }
}

/// A transfer must move a strictly positive amount.
pub fn check_amount(amount: i64) -> (r: Result<(), TransactError>)
    ensures
        amount > 0 <==> r is Ok,
        amount <= 0 ==> r == Err::<(), TransactError>(TransactError::NonPositiveAmount),
{
    if amount <= 0 {
        return Err(TransactError::NonPositiveAmount);
    }
    Ok(())
}

/// A sender may pay as long as its balance does not fall below its credit limit.
pub fn check_within_credit(balance: i64, amount: i64, credit_limit: i64) -> (r: Result<
    (),
    TransactError,
>)
    requires
        amount > 0,
    ensures
        r is Ok <==> balance - amount >= credit_limit,
        r is Err ==> r == Err::<(), TransactError>(TransactError::CreditLimitExceeded),
{
    if (balance as i128) - (amount as i128) < credit_limit as i128 {
        return Err(TransactError::CreditLimitExceeded);
    }
    Ok(())
}

/// A transfer that passed the amount and credit checks leaves its sender at or
/// above the credit limit.
pub proof fn law_accepted_transfer_respects_limit(txs: Seq<Transaction>, tx: Transaction, limit: int)
    requires
        tx.amount > 0,
        balance_of(tx.from_agent@, txs) - tx.amount >= limit,
    ensures
        balance_of(tx.from_agent@, txs.push(tx)) >= limit,
{
    law_balance_after_transaction(tx.from_agent@, txs, tx);
}

/// An agent's balance report.
#[derive(Debug, Clone, PartialEq, Eq)]
pub struct BalanceResult {
    pub agent: Vec<u8>,
    pub balance: i64,
    pub credit_limit: i64,
    pub is_frozen: bool,
}

/// Reports a balance; an account at or below its credit limit is frozen.
pub fn balance_status(agent: Vec<u8>, balance: i64, credit_limit: i64) -> (r: BalanceResult)
    ensures
        r.agent == agent,
        r.balance == balance,
        r.credit_limit == credit_limit,
        r.is_frozen == (balance <= credit_limit),
{
    BalanceResult { agent, balance, credit_limit, is_frozen: balance <= credit_limit }
}

/// `v` is the smallest Fibonacci number, from 2 on, above `n`.
pub open spec fn is_next_fibonacci(n: int, v: int) -> bool {
    exists|k: nat| first_fib_index_above(n, k) && v == fib(k)
}

/// Bounds a computed credit limit from below by minus the next Fibonacci number
/// above the credit supply: no limit reaches deeper than that.
pub fn limit_within_ceiling(limit: i64, credit_supply: i64) -> (r: i64)
    requires
        0 <= credit_supply < fib(92),
    ensures
        exists|v: int|
            is_next_fibonacci(credit_supply as int, v) && r == (if limit >= -v {
                limit as int
            } else {
                -v
            }),
{
    proof {
        lemma_fib_93();
        lemma_fib_monotone(92, 93);
    }
    let next = next_fibonacci(credit_supply as u64);
    proof {
        let k = choose|k: nat| first_fib_index_above(credit_supply as int, k) && next == fib(k);
        if k > 92 {
            lemma_fib_monotone(92, (k - 1) as nat);
        }
        lemma_fib_monotone(k, 92);
        assert(is_next_fibonacci(credit_supply as int, next as int));
    }
    let ceiling = -(next as i64);
    if limit >= ceiling {
        limit
    } else {
        ceiling
    }
}


/// The credit supply after an expansion: the next Fibonacci number above it.
/// A supply on the Fibonacci sequence moves to the next one, so the genesis
/// supply F(16) = 987 first expands to F(17) = 1597.
pub fn expand_credit_supply(current: i64) -> (r: i64)
    requires
        0 <= current < fib(92),
    ensures
        is_next_fibonacci(current as int, r as int),
        r > current,
{
    proof {
        lemma_fib_93();
        lemma_fib_monotone(92, 93);
    }
    let next = next_fibonacci(current as u64);
    proof {
        let k = choose|k: nat| first_fib_index_above(current as int, k) && next == fib(k);
        if k > 92 {
            lemma_fib_monotone(92, (k - 1) as nat);
        }
        lemma_fib_monotone(k, 92);
        assert(is_next_fibonacci(current as int, next as int));
    }
    next as i64
}

/// Expansions stay on the Fibonacci sequence: the next Fibonacci number above
/// F(k), for k of at least 2, is F(k + 1).
pub proof fn law_expansion_moves_one_place(k: nat, v: int)
    requires
        k >= 2,
        is_next_fibonacci(fib(k) as int, v),
    ensures
        v == fib(k + 1),
{
    let j = choose|j: nat| first_fib_index_above(fib(k) as int, j) && v == fib(j);
    lemma_fib_positive((k - 1) as nat);
    assert(fib(k + 1) == fib(k) + fib((k - 1) as nat));
    if j <= k {
        lemma_fib_monotone(j, k);
    } else if j >= k + 2 {
        lemma_fib_monotone(k + 1, (j - 1) as nat);
    }
}

// ─────────────────────────────────────────────
// Network state and Fibonacci growth
// ─────────────────────────────────────────────

/// What recording one more attestation reports.
#[derive(Debug, Clone, Copy, PartialEq, Eq)]
pub struct FibonacciResult {
    pub attestation_count: u64,
    pub threshold_crossed: bool,
    pub new_credit_supply: Option<i64>,
    pub admission_allowance: Option<u32>,
    pub next_threshold: u64,
}

/// The state one more attestation starts from.
#[derive(Debug, Clone, Copy, PartialEq, Eq)]
pub struct AttestationBasis {
    /// The attestation count including the new attestation.
    pub attestation_count: u64,
    pub credit_supply: i64,
    pub cycle: u64,
    /// The count at which the supply expands.
    pub threshold: u64,
    pub phase: u8,
}

/// The basis for one more attestation: the current state with its count raised
/// by one, or, before any state exists, the genesis values.
pub open spec fn basis_of(current: Option<NetworkState>) -> AttestationBasis {
    match current {
        Some(s) => AttestationBasis {
            attestation_count: (s.attestation_count + 1) as u64,
            credit_supply: s.credit_supply,
            cycle: s.cycle,
            threshold: s.next_fibonacci_threshold,
            phase: s.phase,
        },
        None => AttestationBasis {
            attestation_count: 1,
            credit_supply: GENESIS_CREDIT_SUPPLY,
            cycle: 0,
            threshold: BOOTSTRAP_ATTESTATIONS,
            phase: 0,
        },
    }
}

/// Computes the basis for one more attestation.
pub fn attestation_basis(current: &Option<NetworkState>) -> (r: AttestationBasis)
    requires
        current is Some ==> current->0.attestation_count < u64::MAX,
    ensures
        r == basis_of(*current),
{
    match current {
        Some(s) => AttestationBasis {
            attestation_count: s.attestation_count + 1,
            credit_supply: s.credit_supply,
            cycle: s.cycle,
            threshold: s.next_fibonacci_threshold,
            phase: s.phase,
        },
        None => AttestationBasis {
            attestation_count: 1,
            credit_supply: GENESIS_CREDIT_SUPPLY,
            cycle: 0,
            threshold: BOOTSTRAP_ATTESTATIONS,
            phase: 0,
        },
    }
}

/// What to do with one more attestation.
#[derive(Debug, Clone, Copy, PartialEq, Eq)]
pub enum AttestationOutcome {
    /// A state for this count was already written by someone else: write
    /// nothing and report from that state.
    AlreadyRecorded(FibonacciResult),
    /// Write this state and report this result.
    Record(NetworkState, FibonacciResult),
}

/// `i` is the first state in `existing` that records `count` attestations.
pub open spec fn first_with_count(existing: Seq<NetworkState>, count: u64, i: int) -> bool {
    &&& 0 <= i < existing.len()
    &&& existing[i].attestation_count == count
    &&& forall|j: int| 0 <= j < i ==> existing[j].attestation_count != count
}

/// The report taken from a state that is already recorded: its threshold moved
/// past the basis threshold exactly when it crossed it.
pub open spec fn report_from_recorded(s: NetworkState, threshold: u64) -> FibonacciResult {
    let crossed = s.next_fibonacci_threshold > threshold;
    FibonacciResult {
        attestation_count: s.attestation_count,
        threshold_crossed: crossed,
        new_credit_supply: if crossed {
            Some(s.credit_supply)
        } else {
            None
        },
        admission_allowance: None,
        next_threshold: s.next_fibonacci_threshold,
    }
}

/// What the first writer of a count records and reports. When the count
/// reaches the threshold, the supply expands to `expanded_supply`, the threshold
/// moves to the next Fibonacci number above the count, the cycle advances and
/// the network enters its governed phase, reporting `allowance`; below the
/// threshold only the count changes.
pub open spec fn first_write(
    basis: AttestationBasis,
    expanded_supply: i64,
    allowance: u32,
    state: NetworkState,
    res: FibonacciResult,
) -> bool {
    &&& state.attestation_count == basis.attestation_count
    &&& res.attestation_count == basis.attestation_count
    &&& res.next_threshold == state.next_fibonacci_threshold
    &&& if basis.attestation_count >= basis.threshold {
        &&& is_next_fibonacci(
            basis.attestation_count as int,
            state.next_fibonacci_threshold as int,
        )
        &&& state.credit_supply == expanded_supply
        &&& state.cycle == basis.cycle + 1
        &&& state.phase == 1
        &&& res.threshold_crossed
        &&& res.new_credit_supply == Some(expanded_supply)
        &&& res.admission_allowance == Some(allowance)
    } else {
        &&& state.next_fibonacci_threshold == basis.threshold
        &&& state.credit_supply == basis.credit_supply
        &&& state.cycle == basis.cycle
        &&& state.phase == basis.phase
        &&& !res.threshold_crossed
        &&& res.new_credit_supply is None
        &&& res.admission_allowance is None
    }
}

/// Decides what one more attestation does. If some state already records the
/// new count, that state is reported and nothing is written. Otherwise, when
/// the count reaches the threshold, the supply expands to `expanded_supply`,
/// the threshold moves to the next Fibonacci number above the count, the cycle
/// advances and the network enters its governed phase, reporting `allowance`;
/// below the threshold only the count changes.
pub fn attestation_outcome(
    basis: &AttestationBasis,
    existing: &Vec<NetworkState>,
    expanded_supply: i64,
    allowance: u32,
) -> (r: AttestationOutcome)
    requires
        (forall|i: int| 0 <= i < existing@.len() ==> existing@[i].attestation_count != basis.attestation_count)
            && basis.attestation_count >= basis.threshold ==> basis.attestation_count < fib(93)
            && basis.cycle < u64::MAX,
    ensures
        (exists|i: int| 0 <= i < existing@.len() && existing@[i].attestation_count == basis.attestation_count)
            <==> r is AlreadyRecorded,
        match r {
            AttestationOutcome::AlreadyRecorded(res) => exists|i: int|
                first_with_count(existing@, basis.attestation_count, i) && res
                    == report_from_recorded(existing@[i], basis.threshold),
            AttestationOutcome::Record(state, res) => first_write(*basis, expanded_supply, allowance, state, res),
        },
{
    let count = basis.attestation_count;
    let mut i: usize = 0;
    while i < existing.len()
        invariant
            i <= existing.len(),
            count == basis.attestation_count,
            forall|j: int| 0 <= j < i ==> existing@[j].attestation_count != count,
        decreases existing.len() - i,
    {
        let s = existing[i];
        if s.attestation_count == count {
            let crossed = s.next_fibonacci_threshold > basis.threshold;
            let res = FibonacciResult {
                attestation_count: s.attestation_count,
                threshold_crossed: crossed,
                new_credit_supply: if crossed {
                    Some(s.credit_supply)
                } else {
                    None
                },
                admission_allowance: None,
                next_threshold: s.next_fibonacci_threshold,
            };
            assert(s == existing@[i as int]);
            assert(first_with_count(existing@, count, i as int));
            assert(res == report_from_recorded(existing@[i as int], basis.threshold));
            return AttestationOutcome::AlreadyRecorded(res);
        }
        i = i + 1;
    }
    if count >= basis.threshold {
        let next_threshold = next_fibonacci(count);
        let state = NetworkState {
            attestation_count: count,
            next_fibonacci_threshold: next_threshold,
            credit_supply: expanded_supply,
            cycle: basis.cycle + 1,
            phase: 1,
        };
        let res = FibonacciResult {
            attestation_count: count,
            threshold_crossed: true,
            new_credit_supply: Some(expanded_supply),
            admission_allowance: Some(allowance),
            next_threshold,
        };
        AttestationOutcome::Record(state, res)
    } else {
        let state = NetworkState {
            attestation_count: count,
            next_fibonacci_threshold: basis.threshold,
            credit_supply: basis.credit_supply,
            cycle: basis.cycle,
            phase: basis.phase,
        };
        let res = FibonacciResult {
            attestation_count: count,
            threshold_crossed: false,
            new_credit_supply: None,
            admission_allowance: None,
            next_threshold: basis.threshold,
        };
        AttestationOutcome::Record(state, res)
    }
}

/// The threshold never moves backwards: a newly recorded state's threshold is
/// at least the basis threshold, and once crossed it lies beyond the count.
pub proof fn law_threshold_advances(basis: AttestationBasis, state: NetworkState)
    requires
        state.attestation_count == basis.attestation_count,
        basis.attestation_count >= basis.threshold ==> is_next_fibonacci(
            basis.attestation_count as int,
            state.next_fibonacci_threshold as int,
        ),
        basis.attestation_count < basis.threshold ==> state.next_fibonacci_threshold
            == basis.threshold,
    ensures
        state.next_fibonacci_threshold >= basis.threshold,
        state.next_fibonacci_threshold > state.attestation_count,
{
}

/// Crossing the threshold starts a new cycle in the governed phase with the
/// expanded supply and the next Fibonacci threshold above the count; below the
/// threshold only the count changes. Either way the report matches the state.
pub proof fn law_crossing_governs(
    basis: AttestationBasis,
    expanded_supply: i64,
    allowance: u32,
    state: NetworkState,
    res: FibonacciResult,
)
    requires
        first_write(basis, expanded_supply, allowance, state, res),
    ensures
        state.attestation_count == basis.attestation_count,
        res.attestation_count == state.attestation_count,
        res.next_threshold == state.next_fibonacci_threshold,
        res.threshold_crossed <==> basis.attestation_count >= basis.threshold,
        basis.attestation_count >= basis.threshold ==> {
            &&& state.phase == 1
            &&& state.cycle == basis.cycle + 1
            &&& state.credit_supply == expanded_supply
            &&& res.new_credit_supply == Some(expanded_supply)
            &&& res.admission_allowance == Some(allowance)
            &&& state.next_fibonacci_threshold > basis.attestation_count
            &&& exists|k: nat|
                #[trigger] fib(k) == state.next_fibonacci_threshold && k >= 3 && (k == 3 || fib((k - 1) as nat)
                    <= basis.attestation_count)
        },
        basis.attestation_count < basis.threshold ==> {
            &&& state.phase == basis.phase
            &&& state.cycle == basis.cycle
            &&& state.credit_supply == basis.credit_supply
            &&& state.next_fibonacci_threshold == basis.threshold
            &&& res.new_credit_supply is None
            &&& res.admission_allowance is None
        },
{
}

/// A second writer agrees with the first: finding the state the first writer
/// recorded for a count gives the report the first writer made, except that
/// only the first writer hands out an admission allowance.
pub proof fn law_second_writer_agrees(
    basis: AttestationBasis,
    expanded_supply: i64,
    allowance: u32,
    state: NetworkState,
    res: FibonacciResult,
)
    requires
        first_write(basis, expanded_supply, allowance, state, res),
    ensures
        report_from_recorded(state, basis.threshold) == (FibonacciResult {
            attestation_count: res.attestation_count,
            threshold_crossed: res.threshold_crossed,
            new_credit_supply: res.new_credit_supply,
            admission_allowance: None,
            next_threshold: res.next_threshold,
        }),
{
}

/// One attestation moves the network state forward: the count rises by one,
/// the threshold lies beyond the count, and supply, cycle and phase never go
/// back, the phase staying 0 (genesis) or 1 (governed). The supply part rests
/// on the expanded supply handed in being at least the current one.
pub proof fn law_network_state_step(
    current: Option<NetworkState>,
    expanded_supply: i64,
    allowance: u32,
    state: NetworkState,
    res: FibonacciResult,
)
    requires
        current is Some ==> current->0.attestation_count < u64::MAX && current->0.phase <= 1,
        expanded_supply >= basis_of(current).credit_supply,
        first_write(basis_of(current), expanded_supply, allowance, state, res),
    ensures
        state.attestation_count == match current {
            Some(s) => s.attestation_count + 1,
            None => 1,
        },
        state.attestation_count < state.next_fibonacci_threshold,
        state.credit_supply >= basis_of(current).credit_supply,
        state.cycle >= basis_of(current).cycle,
        state.phase >= basis_of(current).phase,
        state.phase <= 1,
{
}

/// The supply stays on the Fibonacci sequence: when it is a Fibonacci number
/// and a crossing expands it to the next Fibonacci number above it, the
/// recorded supply is again a Fibonacci number.
pub proof fn law_supply_stays_fibonacci(
    basis: AttestationBasis,
    expanded_supply: i64,
    allowance: u32,
    state: NetworkState,
    res: FibonacciResult,
)
    requires
        is_fibonacci(basis.credit_supply as int),
        basis.attestation_count >= basis.threshold ==> is_next_fibonacci(
            basis.credit_supply as int,
            expanded_supply as int,
        ),
        first_write(basis, expanded_supply, allowance, state, res),
    ensures
        is_fibonacci(state.credit_supply as int),
{
    if basis.attestation_count >= basis.threshold {
        let k = choose|k: nat|
            first_fib_index_above(basis.credit_supply as int, k) && expanded_supply == fib(k);
        assert(fib(k) == state.credit_supply);
    }
}

/// `v` is a Fibonacci number.
pub open spec fn is_fibonacci(v: int) -> bool {
    exists|k: nat| fib(k) == v
}

/// The bootstrap threshold is the Fibonacci number F(8) and the genesis supply
/// is F(16); the first expansion lands on F(17) = 1597.
pub proof fn law_genesis_values_are_fibonacci()
    ensures
        fib(8) == BOOTSTRAP_ATTESTATIONS,
        fib(16) == GENESIS_CREDIT_SUPPLY,
        fib(17) == 1597,
        is_fibonacci(BOOTSTRAP_ATTESTATIONS as int),
        is_fibonacci(GENESIS_CREDIT_SUPPLY as int),
{
    reveal_with_fuel(fib, 17);
    assert(fib(8) == BOOTSTRAP_ATTESTATIONS as int);
    assert(fib(16) == GENESIS_CREDIT_SUPPLY as int);
}

/// Thresholds stay on the Fibonacci sequence: when the basis threshold is a
/// Fibonacci number, so is the threshold of the state recorded after it.
pub proof fn law_threshold_stays_fibonacci(basis: AttestationBasis, state: NetworkState)
    requires
        is_fibonacci(basis.threshold as int),
        basis.attestation_count >= basis.threshold ==> is_next_fibonacci(
            basis.attestation_count as int,
            state.next_fibonacci_threshold as int,
        ),
        basis.attestation_count < basis.threshold ==> state.next_fibonacci_threshold
            == basis.threshold,
    ensures
        is_fibonacci(state.next_fibonacci_threshold as int),
{
    if basis.attestation_count >= basis.threshold {
        let k = choose|k: nat|
            first_fib_index_above(basis.attestation_count as int, k) && state.next_fibonacci_threshold
                == fib(k);
        assert(fib(k) == state.next_fibonacci_threshold);
    }
}

/// Why an account cannot be opened.
#[derive(Debug, Clone, Copy, PartialEq, Eq)]
pub enum AdmissionError {
    /// The network is governed and the current cycle has no allowance left.
    GateClosed,
}

impl AdmissionError {
    /// The text the error is reported with.
    pub fn message(&self) -> (r: String)
        ensures
            r@ == "Admission gate closed — network in governed phase, no allowance available in current Fibonacci cycle. Allowance opens as validators complete attestations."@,
    {
        String::from_str(
            "Admission gate closed — network in governed phase, no allowance available in current Fibonacci cycle. Allowance opens as validators complete attestations.",
        )
    }
}

/// The admission gate: anyone may join before any state exists or during the
/// genesis phase; once governed, only while the cycle's allowance is non-zero.
pub fn admission_decision(current: &Option<NetworkState>, allowance: u32) -> (r: Result<
    (),
    AdmissionError,
>)
    ensures
        r is Err <==> (current is Some && current->0.phase != 0 && allowance == 0),
{
    match current {
        None => Ok(()),
        Some(state) => {
            if state.phase == 0 {
                Ok(())
            } else if allowance == 0 {
                Err(AdmissionError::GateClosed)
            } else {
                Ok(())
            }
        },
    }
}

} // verus!
