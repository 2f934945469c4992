//! Coordinator checks of the commit/reveal evaluation protocol: commitment
//! shape, which commitments are still live, whose evaluations count towards a
//! quorum, the reveal deadline, and reading an evaluation's vote from its blob.
use vstd::prelude::*;
use vstd::string::StringExecFns;
use crate::coordination_integrity::{EvaluationCommitment, ValidationRequest, COMMITMENT_HASH_LEN};
use crate::holochain::{bytes_equal, bytes_seq, contains_key, LinkInfo};
use crate::json::{json_bool_at, json_bool_field, json_parses, json_str_at, json_str_field, json_text, json_text_of, parses_as_json};

verus! {

/// How long after committing a validator may still reveal (microseconds).
pub const REVEAL_DEADLINE_US: i64 = 68_541_019;

/// Fewest evaluations a quorum needs.
pub const MIN_VALIDATORS: usize = 3;

/// Why a coordination call is refused.
#[derive(Debug, Clone, Copy, PartialEq, Eq)]
pub enum CoordinationError {
    /// A commitment hash that is not 32 bytes long was offered.
    CommitmentHashLength,
    /// The reveal came this many microseconds after the commitment, past the deadline.
    RevealDeadlineExceeded { elapsed_us: i128 },
    /// The revealing agent never committed.
    NoCommitment,
    /// The stored commitment's hash is not 32 bytes long.
    InvalidCommitmentLength,
}

/// A validator's commitment to an evaluation of a request; the hash must be a
/// 32-byte digest.
pub fn commitment_entry(request_hash: Vec<u8>, evaluator: Vec<u8>, commitment_hash: Vec<u8>) -> (r:
    Result<EvaluationCommitment, CoordinationError>)
    ensures
        commitment_hash@.len() != 32 ==> r == Err::<EvaluationCommitment, CoordinationError>(
            CoordinationError::CommitmentHashLength,
        ),
        commitment_hash@.len() == 32 ==> r == Ok::<EvaluationCommitment, CoordinationError>(
            EvaluationCommitment { request_hash, evaluator, commitment_hash },
        ),
{
    if commitment_hash.len() != COMMITMENT_HASH_LEN {
        return Err(CoordinationError::CommitmentHashLength);
    }
    Ok(EvaluationCommitment { request_hash, evaluator, commitment_hash })
}

/// A commitment made at `committed_at` is still live at `now`.
pub open spec fn within_deadline(now: i64, committed_at: i64) -> bool {
    now - committed_at <= REVEAL_DEADLINE_US
}

/// The authors of the commitments still live at `now`, in link order.
pub open spec fn live_committers(commits: Seq<LinkInfo>, now: i64) -> Seq<Seq<u8>>
    decreases commits.len(),
{
    if commits.len() == 0 {
        Seq::empty()
    } else {
        let rest = live_committers(commits.drop_last(), now);
        if within_deadline(now, commits.last().timestamp) {
            rest.push(commits.last().author@)
        } else {
            rest
        }
    }
}

/// An agent is among the live committers exactly when one of its commitments
/// was made no more than the reveal deadline before `now`.
pub proof fn law_live_committers(commits: Seq<LinkInfo>, now: i64)
    ensures
        forall|x: Seq<u8>|
            #[trigger] live_committers(commits, now).contains(x) <==> exists|i: int|
                0 <= i < commits.len() && commits[i].author@ == x && now - commits[i].timestamp
                    <= 68_541_019,
    decreases commits.len(),
{
    if commits.len() > 0 {
        let rest = commits.drop_last();
        law_live_committers(rest, now);
        let prev = live_committers(rest, now);
        let last = commits.last();
        assert forall|x: Seq<u8>| #[trigger] live_committers(commits, now).contains(x) <==> exists|i: int|
            0 <= i < commits.len() && commits[i].author@ == x && now - commits[i].timestamp
                <= 68_541_019 by {
            if live_committers(commits, now).contains(x) {
                if prev.contains(x) {
                    let i = choose|i: int|
                        0 <= i < rest.len() && rest[i].author@ == x && now - rest[i].timestamp
                            <= 68_541_019;
                    assert(commits[i] == rest[i]);
                } else {
                    assert(within_deadline(now, last.timestamp));
                    assert(live_committers(commits, now) == prev.push(last.author@));
                    let k = choose|k: int| 0 <= k < prev.push(last.author@).len() && prev.push(last.author@)[k] == x;
                    if k < prev.len() {
                        assert(prev[k] == x);
                    }
                    assert(commits[commits.len() - 1] == last);
                }
            }
            if exists|i: int|
                0 <= i < commits.len() && commits[i].author@ == x && now - commits[i].timestamp
                    <= 68_541_019 {
                let i = choose|i: int|
                    0 <= i < commits.len() && commits[i].author@ == x && now - commits[i].timestamp
                        <= 68_541_019;
                if i < commits.len() - 1 {
                    assert(rest[i] == commits[i]);
                    assert(prev.contains(x));
                    let k = choose|k: int| 0 <= k < prev.len() && prev[k] == x;
                    if within_deadline(now, last.timestamp) {
                        assert(prev.push(last.author@)[k] == x);
                    }
                } else {
                    assert(prev.push(last.author@)[prev.len() as int] == x);
                }
            }
        }
    }
}

/// The agents whose commitments to a request are still within the reveal
/// deadline at `now`.
pub fn active_commit_agents(commits: &Vec<LinkInfo>, now_us: i64) -> (r: Vec<Vec<u8>>)
    ensures
        bytes_seq(r@) == live_committers(commits@, now_us),
        forall|x: Seq<u8>|
            #[trigger] bytes_seq(r@).contains(x) <==> exists|i: int|
                0 <= i < commits@.len() && commits@[i].author@ == x && now_us - commits@[i].timestamp
                    <= 68_541_019,
{
    proof {
        law_live_committers(commits@, now_us);
    }
    let mut r: Vec<Vec<u8>> = Vec::new();
    let mut i: usize = 0;
    while i < commits.len()
        invariant
            i <= commits.len(),
            bytes_seq(r@) == live_committers(commits@.take(i as int), now_us),
        decreases commits.len() - i,
    {
        assert(commits@.take(i as int + 1).drop_last() =~= commits@.take(i as int));
        if (now_us as i128) - (commits[i].timestamp as i128) <= REVEAL_DEADLINE_US as i128 {
            r.push(commits[i].author.clone());
        }
        assert(bytes_seq(r@) =~= live_committers(commits@.take(i as int + 1), now_us));
        i = i + 1;
    }
    assert(commits@.take(commits.len() as int) =~= commits@);
    r
}

/// Whether an evaluator's evaluation counts. When commit/reveal was used for the
/// request (it has commitments), only evaluators with a commitment still within
/// the reveal deadline count, so evaluators whose deadline expired are skipped;
/// when it was not, every evaluation counts.
pub fn evaluation_counted(has_commitments: bool, active: &Vec<Vec<u8>>, evaluator: &Vec<u8>) -> (r: bool)
    ensures
        r == (!has_commitments || bytes_seq(active@).contains(evaluator@)),
{
    if !has_commitments {
        return true;
    }
    contains_key(active, evaluator)
}

/// The vote an evaluation blob carries.
#[derive(Debug, Clone, PartialEq, Eq)]
pub struct EvaluationVote {
    pub passed: bool,
    pub details: Option<String>,
}

/// Reads the vote out of an evaluation blob, whose JSON text starts at its first
/// `{`: no vote when that text does not parse; otherwise `passed` (false when
/// absent or not a boolean) and `details` (when a string).
pub fn parse_evaluation(raw: &Vec<u8>) -> (r: Option<EvaluationVote>)
    ensures
        !json_parses(json_text(raw@)) ==> r is None,
        json_parses(json_text(raw@)) ==> r is Some && r->0.passed == match json_bool_at(
            json_text(raw@),
            "passed"@,
        ) {
            Some(b) => b,
            None => false,
        } && match r->0.details {
            Some(d) => json_str_at(json_text(raw@), "details"@) == Some(d@),
            None => json_str_at(json_text(raw@), "details"@) is None,
        },
{
    let text = json_text_of(raw);
    if !parses_as_json(text) {
        return None;
    }
    let passed = match json_bool_field(text, "passed") {
        Some(b) => b,
        None => false,
    };
    let details = json_str_field(text, "details");
    Some(EvaluationVote { passed, details })
}

/// `i` is the first link in `links` authored by `agent`.
pub open spec fn first_by(links: Seq<LinkInfo>, agent: Seq<u8>, i: int) -> bool {
    &&& 0 <= i < links.len()
    &&& links[i].author@ == agent
    &&& forall|j: int| 0 <= j < i ==> links[j].author@ != agent
}

/// The position of `agent`'s first commitment among the commitment links.
pub fn find_commitment(commits: &Vec<LinkInfo>, agent: &Vec<u8>) -> (r: Option<usize>)
    ensures
        match r {
            Some(i) => first_by(commits@, agent@, i as int),
            None => forall|j: int| 0 <= j < commits@.len() ==> commits@[j].author@ != agent@,
        },
{
    let mut i: usize = 0;
    while i < commits.len()
        invariant
            i <= commits.len(),
            forall|j: int| 0 <= j < i ==> commits@[j].author@ != agent@,
        decreases commits.len() - i,
    {
        if bytes_equal(&commits[i].author, agent) {
            return Some(i);
        }
        i = i + 1;
    }
    None
}

/// A reveal is refused when the agent's first commitment is older than the
/// reveal deadline; an agent without a commitment passes this check.
pub fn check_reveal_deadline(commits: &Vec<LinkInfo>, agent: &Vec<u8>, now_us: i64) -> (r: Result<
    (),
    CoordinationError,
>)
    ensures
        match r {
            Ok(()) => forall|i: int| first_by(commits@, agent@, i) ==> within_deadline(now_us, commits@[i].timestamp),
            Err(e) => exists|i: int| first_by(commits@, agent@, i) && !within_deadline(now_us, commits@[i].timestamp)
                && e == CoordinationError::RevealDeadlineExceeded {
                    elapsed_us: (now_us - commits@[i].timestamp) as i128,
                },
        },
        r is Err <==> exists|i: int|
            first_by(commits@, agent@, i) && now_us - commits@[i].timestamp > 68_541_019,
{
    match find_commitment(commits, agent) {
        Some(i) => {
            let elapsed: i128 = (now_us as i128) - (commits[i].timestamp as i128);
            if elapsed > REVEAL_DEADLINE_US as i128 {
                return Err(CoordinationError::RevealDeadlineExceeded { elapsed_us: elapsed });
            }
            proof {
                assert forall|j: int| first_by(commits@, agent@, j) implies within_deadline(now_us, commits@[j].timestamp) by {
                    if j < i { assert(commits@[j].author@ != agent@); }
                    if i < j { assert(commits@[i as int].author@ != agent@); }
                }
            }
            Ok(())
        },
        None => Ok(()),
    }
}

/// The stored commitment a reveal is checked against must hold a 32-byte hash.
pub fn check_revealed_commitment(commitment: &EvaluationCommitment) -> (r: Result<(), CoordinationError>)
    ensures
        r is Ok <==> commitment.commitment_hash@.len() == 32,
        r is Err ==> r == Err::<(), CoordinationError>(CoordinationError::InvalidCommitmentLength),
{
    if commitment.commitment_hash.len() != COMMITMENT_HASH_LEN {
        return Err(CoordinationError::InvalidCommitmentLength);
    }
    Ok(())
}

impl CoordinationError {
    /// Every error but the deadline error has a fixed text.
    pub open spec fn has_fixed_message(self) -> bool {
        !(self is RevealDeadlineExceeded)
    }

    /// The fixed text of an error (empty for the deadline error).
    pub open spec fn fixed_message(self) -> Seq<char> {
        match self {
            CoordinationError::CommitmentHashLength => "Commitment hash must be 32 bytes"@,
            CoordinationError::NoCommitment => "No commitment found for this agent — must commit before revealing"@,
            CoordinationError::InvalidCommitmentLength => "Invalid commitment hash length"@,
            CoordinationError::RevealDeadlineExceeded { .. } => Seq::empty(),
        }
    }

    /// The text of the errors whose text is fixed; the deadline error's text
    /// carries its numbers and is written where it is reported.
    pub fn fixed_text(&self) -> (r: Option<String>)
        ensures
            self.has_fixed_message() ==> r is Some && r->0@ == self.fixed_message(),
            !self.has_fixed_message() ==> r is None,
    {
        match self {
            CoordinationError::CommitmentHashLength => Some(String::from_str("Commitment hash must be 32 bytes")),
            CoordinationError::NoCommitment => Some(String::from_str(
                "No commitment found for this agent — must commit before revealing",
            )),
            CoordinationError::InvalidCommitmentLength => Some(String::from_str("Invalid commitment hash length")),
            CoordinationError::RevealDeadlineExceeded { .. } => None,
        }
    }
}


/// A request that a manifest be validated by hash, with no capabilities
/// required of the validators.
pub fn new_validation_request(manifest_hash: Vec<u8>, requester: Vec<u8>, metadata_blob: Vec<u8>) -> (r: ValidationRequest)
    ensures
        r.manifest_hash == manifest_hash,
        r.requester == requester,
        r.validation_type@ == "hash"@,
        r.required_capabilities@.len() == 0,
        r.metadata_blob == metadata_blob,
{
    ValidationRequest {
        manifest_hash,
        requester,
        validation_type: String::from_str("hash"),
        required_capabilities: Vec::new(),
        metadata_blob,
    }
}

} // verus!
