//! Integrity rules of the mutual credit DNA: accounts, transactions and credit
//! limits are append-only, and a transaction moves a positive amount.
use vstd::prelude::*;
use crate::holochain::{
    accepts, invalid, is_entry_change, is_link_removal, missing_pkg_message, refuses_with,
    PreviousAction, ValidateCallbackResult, ValidationOp,
};

verus! {

/// An agent's account, opened with the default credit limit.
#[derive(Debug, Clone, PartialEq, Eq)]
pub struct Account {
    pub agent: Vec<u8>,
    pub credit_limit: i64,
    pub metadata_blob: Vec<u8>,
}

/// A transfer of `amount` credit from one agent to another.
#[derive(Debug, Clone, PartialEq, Eq)]
pub struct Transaction {
    pub from_agent: Vec<u8>,
    pub to_agent: Vec<u8>,
    pub amount: i64,
    pub metadata_blob: Vec<u8>,
}

/// A credit limit set for an agent from its reputation (in thousandths).
#[derive(Debug, Clone, PartialEq, Eq)]
pub struct CreditLimit {
    pub agent: Vec<u8>,
    pub limit: i64,
    pub reputation_score: u32,
    pub metadata_blob: Vec<u8>,
}

/// The network's growth state: attestations so far, the attestation count at
/// which the credit supply next expands, the supply, how many expansions have
/// happened, and the phase (0 genesis, 1 governed).
#[derive(Debug, Clone, Copy, PartialEq, Eq)]
pub struct NetworkState {
    pub attestation_count: u64,
    pub next_fibonacci_threshold: u64,
    pub credit_supply: i64,
    pub cycle: u64,
    pub phase: u8,
}

/// The entry types of the mutual credit DNA.
#[derive(Debug, Clone, PartialEq, Eq)]
pub enum EntryTypes {
    Account(Account),
    Transaction(Transaction),
    CreditLimit(CreditLimit),
    NetworkState(NetworkState),
}

/// The link types of the mutual credit DNA.
#[derive(Debug, Clone, Copy, PartialEq, Eq)]
pub enum LinkTypes {
    AgentToAccount,
    AgentToTransactions,
    AgentToCreditLimit,
    NetworkStateAnchor,
}

/// What the genesis self-check sees of the joining agent.
#[derive(Debug, Clone, PartialEq, Eq)]
pub struct GenesisData {
    pub agent_key: Vec<u8>,
    pub membrane_proof: Option<Vec<u8>>,
}

/// Every agent passes the genesis self-check.
pub fn genesis_self_check(_data: &GenesisData) -> (r: ValidateCallbackResult)
    ensures
        accepts(r),
{
    ValidateCallbackResult::Valid
}

/// Every agent may join; no membrane proof is required.
pub fn validate_agent_joining(_agent: &Vec<u8>, _membrane_proof: &Option<Vec<u8>>) -> (r:
    ValidateCallbackResult)
    ensures
        accepts(r),
{
    ValidateCallbackResult::Valid
}

/// The rule a new transaction must meet: it moves a positive amount.
pub open spec fn transaction_rule(tx: Transaction) -> bool {
    tx.amount > 0
}

/// A transaction must move a strictly positive amount.
pub fn validate_create_transaction(tx: &Transaction) -> (r: ValidateCallbackResult)
    ensures
        transaction_rule(*tx) ==> accepts(r),
        !transaction_rule(*tx) ==> refuses_with(r, "Transaction amount must be positive"@),
{
    if tx.amount <= 0 {
        return invalid("Transaction amount must be positive");
    }
    ValidateCallbackResult::Valid
}

/// What the rules say of a newly created entry.
pub open spec fn entry_rule(entry: EntryTypes) -> bool {
    match entry {
        EntryTypes::Transaction(tx) => transaction_rule(tx),
        _ => true,
    }
}

/// Only transactions can be refused: accounts, credit limits (negative, as
/// they are by construction, or not) and network states are always accepted,
/// and a transaction is accepted exactly when its amount is positive.
pub proof fn law_only_transactions_can_be_refused(entry: EntryTypes)
    ensures
        !(entry is Transaction) ==> entry_rule(entry),
        entry matches EntryTypes::Transaction(tx) ==> (entry_rule(entry) <==> tx.amount > 0),
{
}

fn validate_create_entry(entry: &EntryTypes) -> (r: ValidateCallbackResult)
    ensures
        entry_rule(*entry) ==> accepts(r),
        !entry_rule(*entry) ==> refuses_with(r, "Transaction amount must be positive"@),
{
    match entry {
        EntryTypes::Account(_) => ValidateCallbackResult::Valid,
        EntryTypes::Transaction(tx) => validate_create_transaction(tx),
        EntryTypes::CreditLimit(_) => ValidateCallbackResult::Valid,
        EntryTypes::NetworkState(_) => ValidateCallbackResult::Valid,
    }
}

/// The DNA's validation callback. Stored entries and links may never be changed
/// or removed; new entries follow their type's rule; new links of every type are
/// accepted; a new agent must come right after its validation package.
pub fn validate(op: &ValidationOp<EntryTypes, LinkTypes>) -> (r: ValidateCallbackResult)
    ensures
        is_entry_change(*op) ==> refuses_with(r, "Mutual credit entries are immutable"@),
        is_link_removal(*op) ==> refuses_with(r, "Mutual credit links are permanent"@),
        op is RegisterCreateLink || op is StoreRecordCreateLink || op is Other ==> accepts(r),
        match *op {
            ValidationOp::StoreEntryCreate(e) | ValidationOp::StoreRecordCreate(e) => {
                &&& !(e is Transaction) ==> r == ValidateCallbackResult::Valid
                &&& e matches EntryTypes::Transaction(tx) ==> (r == ValidateCallbackResult::Valid
                    <==> tx.amount > 0)
            },
            _ => true,
        },
        match *op {
            ValidationOp::StoreEntryCreate(e) | ValidationOp::StoreRecordCreate(e) => {
                &&& entry_rule(e) ==> accepts(r)
                &&& !entry_rule(e) ==> refuses_with(r, "Transaction amount must be positive"@)
            },
            ValidationOp::CreateAgent { agent, previous } => match previous {
                PreviousAction::AgentValidationPkg { .. } => accepts(r),
                PreviousAction::Other => refuses_with(r, missing_pkg_message()),
            },
            _ => true,
        },
{
    match op {
        ValidationOp::StoreEntryCreate(entry) => validate_create_entry(entry),
        ValidationOp::StoreEntryUpdate => invalid("Mutual credit entries are immutable"),
        ValidationOp::RegisterUpdate => invalid("Mutual credit entries are immutable"),
        ValidationOp::RegisterDelete => invalid("Mutual credit entries are immutable"),
        ValidationOp::RegisterCreateLink { .. } => ValidateCallbackResult::Valid,
        ValidationOp::RegisterDeleteLink => invalid("Mutual credit links are permanent"),
        ValidationOp::StoreRecordCreate(entry) => validate_create_entry(entry),
        ValidationOp::StoreRecordUpdate => invalid("Mutual credit entries are immutable"),
        ValidationOp::StoreRecordDelete => invalid("Mutual credit entries are immutable"),
        ValidationOp::StoreRecordCreateLink { .. } => ValidateCallbackResult::Valid,
        ValidationOp::StoreRecordDeleteLink => invalid("Mutual credit links are permanent"),
        ValidationOp::CreateAgent { agent, previous } => match previous {
            PreviousAction::AgentValidationPkg { membrane_proof } => validate_agent_joining(
                agent,
                membrane_proof,
            ),
            PreviousAction::Other => invalid(
                "The previous action for a `CreateAgent` action must be an `AgentValidationPkg`",
            ),
        },
        ValidationOp::Other => ValidateCallbackResult::Valid,
    }
}

} // verus!
