//! Registry coordinator logic that is not arithmetic on scores: de-duplicating
//! manifests by content, deciding whether cached scores are still fresh, the
//! commit/reveal counters, collecting the events a reputation is built from,
//! and reading fields out of manifest and warrant blobs.
use vstd::prelude::*;
use vstd::string::StringExecFns;
use crate::holochain::{bytes_equal, bytes_seq, contains_key, LinkInfo, LinkableKind};
use crate::json::{first_brace, json_parses, json_str_at, json_str_field, json_text, json_text_of, json_u64_at, json_u64_field, find_json_start};
use crate::registry_integrity::ReputationCache;

verus! {

/// `i` is the first link authored by `agent` that points at an action.
pub open spec fn first_own_action_link(links: Seq<LinkInfo>, agent: Seq<u8>, i: int) -> bool {
    &&& 0 <= i < links.len()
    &&& links[i].author@ == agent
    &&& links[i].target.kind == LinkableKind::Action
    &&& forall|j: int| 0 <= j < i ==> !(links[j].author@ == agent && links[j].target.kind == LinkableKind::Action)
}

/// Among the manifests already filed under a content hash, the one this agent
/// published first: creating a manifest twice gives back the first one.
pub fn find_own_manifest(content_links: &Vec<LinkInfo>, agent: &Vec<u8>) -> (r: Option<Vec<u8>>)
    ensures
        match r {
            Some(h) => exists|i: int| first_own_action_link(content_links@, agent@, i) && h@ == content_links@[i].target.bytes@,
            None => forall|j: int| 0 <= j < content_links@.len() ==> !(content_links@[j].author@ == agent@
                && content_links@[j].target.kind == LinkableKind::Action),
        },
{
    let mut i: usize = 0;
    while i < content_links.len()
        invariant
            i <= content_links.len(),
            forall|j: int| 0 <= j < i ==> !(content_links@[j].author@ == agent@
                && content_links@[j].target.kind == LinkableKind::Action),
        decreases content_links.len() - i,
    {
        let link = &content_links[i];
        if bytes_equal(&link.author, agent) {
            if link.target.kind == LinkableKind::Action {
                assert(first_own_action_link(content_links@, agent@, i as int));
                return Some(link.target.bytes.clone());
            }
        }
        i = i + 1;
    }
    None
}

/// There is at most one first own action link.
pub proof fn lemma_first_own_action_link_unique(links: Seq<LinkInfo>, agent: Seq<u8>, i: int, j: int)
    requires
        first_own_action_link(links, agent, i),
        first_own_action_link(links, agent, j),
    ensures
        i == j,
{
}

/// Creating a manifest twice gives back the first: when an agent with no
/// manifest under a content hash files one (its link appended to that hash's
/// links), that link is from then on the agent's first own action link there,
/// so a later `find_own_manifest` returns it.
pub proof fn law_manifest_creation_idempotent(links: Seq<LinkInfo>, agent: Seq<u8>, created: LinkInfo)
    requires
        forall|j: int| 0 <= j < links.len() ==> !(links[j].author@ == agent && links[j].target.kind
            == LinkableKind::Action),
        created.author@ == agent,
        created.target.kind == LinkableKind::Action,
    ensures
        first_own_action_link(links.push(created), agent, links.len() as int),
        forall|i: int| #[trigger] first_own_action_link(links.push(created), agent, i) ==> i == links.len(),
{
    let n = links.push(created);
    assert forall|j: int| 0 <= j < links.len() implies !(n[j].author@ == agent && n[j].target.kind
        == LinkableKind::Action) by {
        assert(n[j] == links[j]);
    }
    assert forall|i: int| #[trigger] first_own_action_link(n, agent, i) implies i == links.len() by {
        lemma_first_own_action_link_unique(n, agent, i, links.len() as int);
    }
}

/// No link in `links` is newer than `t`.
pub open spec fn none_newer(links: Seq<LinkInfo>, t: i64) -> bool {
    forall|i: int| 0 <= i < links.len() ==> links[i].timestamp <= t
}

/// No link in `links` by someone other than `agent` is newer than `t`.
pub open spec fn none_newer_by_others(links: Seq<LinkInfo>, agent: Seq<u8>, t: i64) -> bool {
    forall|i: int| 0 <= i < links.len() ==> links[i].author@ == agent || links[i].timestamp <= t
}

fn check_none_newer(links: &Vec<LinkInfo>, t: i64) -> (r: bool)
    ensures
        r == none_newer(links@, t),
{
    let mut i: usize = 0;
    while i < links.len()
        invariant
            i <= links.len(),
            forall|j: int| 0 <= j < i ==> links@[j].timestamp <= t,
        decreases links.len() - i,
    {
        if links[i].timestamp > t {
            return false;
        }
        i = i + 1;
    }
    true
}

/// The attestation and warrant links of one of an agent's manifests.
#[derive(Debug, Clone, PartialEq, Eq)]
pub struct ManifestLinks {
    pub attestations: Vec<LinkInfo>,
    pub warrants: Vec<LinkInfo>,
}

/// A cached reputation stays valid while none of the agent's manifests has an
/// attestation by someone else, or any warrant, made after the cache was, and
/// no convergence signal about the agent was recorded after it.
pub open spec fn reputation_cache_fresh_spec(
    manifests: Seq<ManifestLinks>,
    convergence: Seq<LinkInfo>,
    agent: Seq<u8>,
    computed_at: i64,
) -> bool {
    &&& forall|m: int| 0 <= m < manifests.len() ==> {
        &&& none_newer_by_others(manifests[m].attestations@, agent, computed_at)
        &&& none_newer(manifests[m].warrants@, computed_at)
    }
    &&& none_newer(convergence, computed_at)
}

/// When a cached reputation is stale: exactly when some manifest of the agent,
/// whichever it is, has an attestation by someone else or a warrant made after
/// the cache, or a convergence signal about the agent was recorded after it.
pub proof fn law_reputation_cache_staleness(
    manifests: Seq<ManifestLinks>,
    convergence: Seq<LinkInfo>,
    agent: Seq<u8>,
    computed_at: i64,
)
    ensures
        reputation_cache_fresh_spec(manifests, convergence, agent, computed_at) <==> {
            &&& forall|m: int, i: int|
                0 <= m < manifests.len() && 0 <= i < manifests[m].attestations@.len() ==> (
                #[trigger] manifests[m].attestations@[i]).author@ == agent
                    || manifests[m].attestations@[i].timestamp <= computed_at
            &&& forall|m: int, i: int|
                0 <= m < manifests.len() && 0 <= i < manifests[m].warrants@.len() ==> (
                #[trigger] manifests[m].warrants@[i]).timestamp <= computed_at
            &&& forall|i: int| 0 <= i < convergence.len() ==> (#[trigger] convergence[i]).timestamp <= computed_at
        },
{
}

/// Whether a reputation computed at `computed_at` may still be served from the
/// cache, given the attestation and warrant links of the agent's manifests and
/// the agent's convergence-signal links.
pub fn reputation_cache_fresh(
    manifests: &Vec<ManifestLinks>,
    convergence: &Vec<LinkInfo>,
    agent: &Vec<u8>,
    computed_at: i64,
) -> (r: bool)
    ensures
        r == reputation_cache_fresh_spec(manifests@, convergence@, agent@, computed_at),
        r <==> {
            &&& forall|m: int, i: int|
                0 <= m < manifests@.len() && 0 <= i < manifests@[m].attestations@.len() ==> (
                #[trigger] manifests@[m].attestations@[i]).author@ == agent@
                    || manifests@[m].attestations@[i].timestamp <= computed_at
            &&& forall|m: int, i: int|
                0 <= m < manifests@.len() && 0 <= i < manifests@[m].warrants@.len() ==> (
                #[trigger] manifests@[m].warrants@[i]).timestamp <= computed_at
            &&& forall|i: int| 0 <= i < convergence@.len() ==> (#[trigger] convergence@[i]).timestamp <= computed_at
        },
{
    proof {
        law_reputation_cache_staleness(manifests@, convergence@, agent@, computed_at);
    }
    let mut m: usize = 0;
    while m < manifests.len()
        invariant
            m <= manifests.len(),
            forall|k: int| 0 <= k < m ==> {
                &&& none_newer_by_others(manifests@[k].attestations@, agent@, computed_at)
                &&& none_newer(manifests@[k].warrants@, computed_at)
            },
        decreases manifests.len() - m,
    {
        let links = &manifests[m];
        let mut i: usize = 0;
        while i < links.attestations.len()
            invariant
                i <= links.attestations.len(),
                m < manifests.len(),
                *links == manifests@[m as int],
                forall|j: int| 0 <= j < i ==> links.attestations@[j].author@ == agent@
                    || links.attestations@[j].timestamp <= computed_at,
            decreases links.attestations.len() - i,
        {
            let a = &links.attestations[i];
            if !bytes_equal(&a.author, agent) && a.timestamp > computed_at {
                assert(!none_newer_by_others(manifests@[m as int].attestations@, agent@, computed_at));
                return false;
            }
            i = i + 1;
        }
        if !check_none_newer(&links.warrants, computed_at) {
            assert(!none_newer(manifests@[m as int].warrants@, computed_at));
            return false;
        }
        m = m + 1;
    }
    check_none_newer(convergence, computed_at)
}

/// A cached trust score stays valid while the manifest has no attestation and
/// no warrant confirmation made after the cache was.
pub fn trust_cache_fresh(attestations: &Vec<LinkInfo>, confirmations: &Vec<LinkInfo>, computed_at: i64) -> (r: bool)
    ensures
        r == (none_newer(attestations@, computed_at) && none_newer(confirmations@, computed_at)),
        r <==> (forall|i: int| 0 <= i < attestations@.len() ==> (#[trigger] attestations@[i]).timestamp
            <= computed_at) && (forall|i: int|
            0 <= i < confirmations@.len() ==> (#[trigger] confirmations@[i]).timestamp <= computed_at),
{
    check_none_newer(attestations, computed_at) && check_none_newer(confirmations, computed_at)
}

/// The counters carried over from an agent's previous cache entry, or all zero
/// when there is none.
pub open spec fn carried(prev: Option<ReputationCache>) -> (u32, i32, u32, u32, u32, u32) {
    match prev {
        Some(c) => (c.score, c.score_delta, c.attestation_count, c.warrant_count, c.total_commits, c.total_reveals),
        None => (0, 0, 0, 0, 0, 0),
    }
}

/// The next cache entry for an agent: everything carried over from the previous
/// one, with the given score, commit and reveal counts.
pub open spec fn next_cache(
    agent: Seq<u8>,
    prev: Option<ReputationCache>,
    now: i64,
    score: u32,
    commits: u32,
    reveals: u32,
    r: ReputationCache,
) -> bool {
    let c = carried(prev);
    &&& r.agent@ == agent
    &&& r.score == score
    &&& r.score_delta == c.1
    &&& r.computed_at == now
    &&& r.attestation_count == c.2
    &&& r.warrant_count == c.3
    &&& r.total_commits == commits
    &&& r.total_reveals == reveals
}

fn cache_entry(agent: &Vec<u8>, prev: &Option<ReputationCache>, now: i64, score: u32, commits: u32, reveals: u32) -> (r: ReputationCache)
    ensures
        next_cache(agent@, *prev, now, score, commits, reveals, r),
{
    let (delta, att, warr) = match prev {
        Some(c) => (c.score_delta, c.attestation_count, c.warrant_count),
        None => (0, 0, 0),
    };
    ReputationCache {
        agent: agent.clone(),
        score,
        score_delta: delta,
        computed_at: now,
        attestation_count: att,
        warrant_count: warr,
        total_commits: commits,
        total_reveals: reveals,
    }
}

/// Records one more commitment by the agent; all else is carried over.
pub fn cache_after_commit(agent: &Vec<u8>, prev: &Option<ReputationCache>, now: i64) -> (r: ReputationCache)
    requires
        carried(*prev).4 < u32::MAX,
    ensures
        next_cache(agent@, *prev, now, carried(*prev).0, (carried(*prev).4 + 1) as u32, carried(*prev).5, r),
        r.agent@ == agent@,
        r.computed_at == now,
        match *prev {
            Some(c) => {
                &&& r.score == c.score
                &&& r.score_delta == c.score_delta
                &&& r.attestation_count == c.attestation_count
                &&& r.warrant_count == c.warrant_count
                &&& r.total_commits == c.total_commits + 1
                &&& r.total_reveals == c.total_reveals
            },
            None => {
                &&& r.score == 0
                &&& r.score_delta == 0
                &&& r.attestation_count == 0
                &&& r.warrant_count == 0
                &&& r.total_commits == 1
                &&& r.total_reveals == 0
            },
        },
{
    let (score, commits, reveals) = match prev {
        Some(c) => (c.score, c.total_commits, c.total_reveals),
        None => (0, 0, 0),
    };
    cache_entry(agent, prev, now, score, commits + 1, reveals)
}

/// Records one more reveal by the agent; all else is carried over.
pub fn cache_after_reveal(agent: &Vec<u8>, prev: &Option<ReputationCache>, now: i64) -> (r: ReputationCache)
    requires
        carried(*prev).5 < u32::MAX,
    ensures
        next_cache(agent@, *prev, now, carried(*prev).0, carried(*prev).4, (carried(*prev).5 + 1) as u32, r),
        r.agent@ == agent@,
        r.computed_at == now,
        match *prev {
            Some(c) => {
                &&& r.score == c.score
                &&& r.score_delta == c.score_delta
                &&& r.attestation_count == c.attestation_count
                &&& r.warrant_count == c.warrant_count
                &&& r.total_commits == c.total_commits
                &&& r.total_reveals == c.total_reveals + 1
            },
            None => {
                &&& r.score == 0
                &&& r.score_delta == 0
                &&& r.attestation_count == 0
                &&& r.warrant_count == 0
                &&& r.total_commits == 0
                &&& r.total_reveals == 1
            },
        },
{
    let (score, commits, reveals) = match prev {
        Some(c) => (c.score, c.total_commits, c.total_reveals),
        None => (0, 0, 0),
    };
    cache_entry(agent, prev, now, score, commits, reveals + 1)
}

/// Replaces the agent's score (a penalty for a missed reveal); all else is
/// carried over.
pub fn cache_with_score(agent: &Vec<u8>, prev: &Option<ReputationCache>, now: i64, score: u32) -> (r: ReputationCache)
    ensures
        next_cache(agent@, *prev, now, score, carried(*prev).4, carried(*prev).5, r),
        r.agent@ == agent@,
        r.computed_at == now,
        match *prev {
            Some(c) => {
                &&& r.score == score
                &&& r.score_delta == c.score_delta
                &&& r.attestation_count == c.attestation_count
                &&& r.warrant_count == c.warrant_count
                &&& r.total_commits == c.total_commits
                &&& r.total_reveals == c.total_reveals
            },
            None => {
                &&& r.score == score
                &&& r.score_delta == 0
                &&& r.attestation_count == 0
                &&& r.warrant_count == 0
                &&& r.total_commits == 0
                &&& r.total_reveals == 0
            },
        },
{
    let (commits, reveals) = match prev {
        Some(c) => (c.total_commits, c.total_reveals),
        None => (0, 0),
    };
    cache_entry(agent, prev, now, score, commits, reveals)
}

/// The severity a confirmed warrant carries: the `computed_severity` field of
/// the warrant blob's JSON text, truncated to 32 bits, or 0 when it is missing,
/// not an unsigned integer, or the text does not parse.
pub fn confirmed_severity(raw: &Vec<u8>) -> (r: u32)
    ensures
        r == (match json_u64_at(json_text(raw@), "computed_severity"@) {
            Some(v) => v as u32,
            None => 0u32,
        }),
        !json_parses(json_text(raw@)) ==> r == 0,
{
    let text = json_text_of(raw);
    match json_u64_field(text, "computed_severity") {
        Some(v) => v as u32,
        None => 0,
    }
}

/// The manifest kinds that get a trust score.
pub open spec fn is_scoreable_kind(t: Seq<char>) -> bool {
    ||| t == "ai_model"@
    ||| t == "dataset"@
    ||| t == "training_run"@
    ||| t == "inference_endpoint"@
}

/// The artifact manifests get a trust score: AI models, datasets, training runs
/// and inference endpoints. Connector and generic manifests do not.
pub proof fn law_artifact_kinds_are_scoreable()
    ensures
        is_scoreable_kind("ai_model"@),
        is_scoreable_kind("dataset"@),
        is_scoreable_kind("training_run"@),
        is_scoreable_kind("inference_endpoint"@),
        !is_scoreable_kind("connector"@),
        !is_scoreable_kind("generic"@),
{
    reveal_strlit("ai_model");
    reveal_strlit("dataset");
    reveal_strlit("training_run");
    reveal_strlit("inference_endpoint");
    reveal_strlit("connector");
    reveal_strlit("generic");
    assert("connector"@.len() != "ai_model"@.len());
    assert("connector"@.len() != "dataset"@.len());
    assert("connector"@.len() != "training_run"@.len());
    assert("connector"@.len() != "inference_endpoint"@.len());
    assert("generic"@.len() != "ai_model"@.len());
    assert("generic"@[0] != "dataset"@[0]);
    assert("generic"@.len() != "training_run"@.len());
    assert("generic"@.len() != "inference_endpoint"@.len());
}

/// Whether a manifest blob is of a kind that gets a trust score: it must hold a
/// `{`, and the `blob_type` field of the JSON text from there must name one of
/// those kinds.
pub fn manifest_blob_scoreable(raw: &Vec<u8>) -> (r: bool)
    ensures
        r == (first_brace(raw@) is Some && match json_str_at(json_text(raw@), "blob_type"@) {
            Some(t) => is_scoreable_kind(t),
            None => false,
        }),
        !json_parses(json_text(raw@)) ==> !r,
        first_brace(raw@) is Some && (json_str_at(json_text(raw@), "blob_type"@) == Some("ai_model"@)
            || json_str_at(json_text(raw@), "blob_type"@) == Some("dataset"@) || json_str_at(
            json_text(raw@),
            "blob_type"@,
        ) == Some("training_run"@) || json_str_at(json_text(raw@), "blob_type"@) == Some(
            "inference_endpoint"@,
        )) ==> r,
        json_str_at(json_text(raw@), "blob_type"@) == Some("connector"@) || json_str_at(
            json_text(raw@),
            "blob_type"@,
        ) == Some("generic"@) ==> !r,
{
    proof {
        law_artifact_kinds_are_scoreable();
    }
    if find_json_start(raw).is_none() {
        return false;
    }
    let text = json_text_of(raw);
    match json_str_field(text, "blob_type") {
        Some(t) => {
            t == String::from_str("ai_model") || t == String::from_str("dataset") || t
                == String::from_str("training_run") || t == String::from_str("inference_endpoint")
        },
        None => false,
    }
}

/// The content hash a manifest blob declares: the `content_hash` field of the
/// JSON text from the blob's first `{`, when there is one.
pub fn manifest_content_hash(raw: &Vec<u8>) -> (r: Option<String>)
    ensures
        first_brace(raw@) is None ==> r is None,
        first_brace(raw@) is Some ==> match r {
            Some(s) => json_str_at(json_text(raw@), "content_hash"@) == Some(s@),
            None => json_str_at(json_text(raw@), "content_hash"@) is None,
        },
        !json_parses(json_text(raw@)) ==> r is None,
{
    if find_json_start(raw).is_none() {
        return None;
    }
    let text = json_text_of(raw);
    json_str_field(text, "content_hash")
}

/// `r` lists each author of `links` exactly once, in an order left open.
pub open spec fn is_distinct_authors(links: Seq<LinkInfo>, r: Seq<Seq<u8>>) -> bool {
    &&& r.no_duplicates()
    &&& forall|x: Seq<u8>| r.contains(x) <==> exists|i: int| 0 <= i < links.len() && links[i].author@ == x
}

/// The agents that authored `links`, each once.
pub fn distinct_authors(links: &Vec<LinkInfo>) -> (r: Vec<Vec<u8>>)
    ensures
        is_distinct_authors(links@, bytes_seq(r@)),
{
    let mut r: Vec<Vec<u8>> = Vec::new();
    let mut i: usize = 0;
    while i < links.len()
        invariant
            i <= links.len(),
            is_distinct_authors(links@.take(i as int), bytes_seq(r@)),
        decreases links.len() - i,
    {
        let ghost before = bytes_seq(r@);
        if !contains_key(&r, &links[i].author) {
            r.push(links[i].author.clone());
            proof {
                assert(bytes_seq(r@) =~= before.push(links@[i as int].author@));
            }
        }
        proof {
            let t1 = links@.take(i as int + 1);
            assert forall|x: Seq<u8>| bytes_seq(r@).contains(x) <==> exists|k: int| 0 <= k < t1.len() && t1[k].author@ == x by {
                if bytes_seq(r@).contains(x) {
                    if before.contains(x) {
                        let k = choose|k: int| 0 <= k < i && links@.take(i as int)[k].author@ == x;
                        assert(t1[k].author@ == x);
                    } else {
                        assert(t1[i as int].author@ == x);
                    }
                }
                if exists|k: int| 0 <= k < t1.len() && t1[k].author@ == x {
                    let k = choose|k: int| 0 <= k < t1.len() && t1[k].author@ == x;
                    if k < i {
                        assert(links@.take(i as int)[k].author@ == x);
                        assert(before.contains(x));
                        assert(bytes_seq(r@).contains(x)) by {
                            let p = choose|p: int| 0 <= p < before.len() && before[p] == x;
                            assert(bytes_seq(r@)[p] == x);
                        }
                    } else {
                        assert(k == i);
                        if before.contains(x) {
                            let p = choose|p: int| 0 <= p < before.len() && before[p] == x;
                            assert(bytes_seq(r@)[p] == x);
                        } else {
                            assert(bytes_seq(r@)[bytes_seq(r@).len() - 1] == x);
                        }
                    }
                }
            }
        }
        i = i + 1;
    }
    assert(links@.take(links.len() as int) =~= links@);
    r
}


/// One event a reputation is built from: an attestation of one of the agent's
/// manifests by someone else, or a warrant against one of them.
#[derive(Debug, Clone, Copy, PartialEq, Eq)]
pub struct ReputationEvent {
    pub timestamp: i64,
    pub is_attestation: bool,
}

/// The events of one manifest: attestations by others, then warrants, each in
/// link order.
pub open spec fn attestation_events(links: Seq<LinkInfo>, agent: Seq<u8>) -> Seq<ReputationEvent>
    decreases links.len(),
{
    if links.len() == 0 {
        Seq::empty()
    } else {
        let rest = attestation_events(links.drop_last(), agent);
        if links.last().author@ != agent {
            rest.push(ReputationEvent { timestamp: links.last().timestamp, is_attestation: true })
        } else {
            rest
        }
    }
}

/// The events of a manifest's warrants, in link order.
pub open spec fn warrant_events(links: Seq<LinkInfo>) -> Seq<ReputationEvent> {
    links.map_values(|l: LinkInfo| ReputationEvent { timestamp: l.timestamp, is_attestation: false })
}

/// All events over an agent's manifests, manifest by manifest.
pub open spec fn reputation_events_spec(manifests: Seq<ManifestLinks>, agent: Seq<u8>) -> Seq<ReputationEvent>
    decreases manifests.len(),
{
    if manifests.len() == 0 {
        Seq::empty()
    } else {
        reputation_events_spec(manifests.drop_last(), agent) + attestation_events(
            manifests.last().attestations@,
            agent,
        ) + warrant_events(manifests.last().warrants@)
    }
}

/// How many of the events are attestations.
pub open spec fn attestation_total(events: Seq<ReputationEvent>) -> nat
    decreases events.len(),
{
    if events.len() == 0 {
        0
    } else {
        attestation_total(events.drop_last()) + if events.last().is_attestation { 1nat } else { 0nat }
    }
}

/// The events a reputation is computed from, with how many are attestations and
/// how many warrants.
#[derive(Debug, Clone, PartialEq, Eq)]
pub struct ReputationEvents {
    pub events: Vec<ReputationEvent>,
    pub attestation_count: u32,
    pub warrant_count: u32,
}

proof fn lemma_attestation_total_push(events: Seq<ReputationEvent>, e: ReputationEvent)
    ensures
        attestation_total(events.push(e)) == attestation_total(events) + if e.is_attestation { 1nat } else { 0nat },
{
    assert(events.push(e).drop_last() =~= events);
}

proof fn lemma_attestation_total_bound(events: Seq<ReputationEvent>)
    ensures
        attestation_total(events) <= events.len(),
    decreases events.len(),
{
    if events.len() > 0 {
        lemma_attestation_total_bound(events.drop_last());
    }
}

/// Collects the events of an agent's manifests: every attestation made by
/// someone other than the agent, and every warrant, counting both kinds.
pub fn reputation_events(manifests: &Vec<ManifestLinks>, agent: &Vec<u8>) -> (r: ReputationEvents)
    requires
        reputation_events_spec(manifests@, agent@).len() <= u32::MAX,
    ensures
        r.events@ == reputation_events_spec(manifests@, agent@),
        r.attestation_count == attestation_total(r.events@),
        r.warrant_count == r.events@.len() - attestation_total(r.events@),
{
    let mut events: Vec<ReputationEvent> = Vec::new();
    let mut atts: u32 = 0;
    let mut warrs: u32 = 0;
    let mut m: usize = 0;
    while m < manifests.len()
        invariant
            m <= manifests.len(),
            reputation_events_spec(manifests@, agent@).len() <= u32::MAX,
            events@ == reputation_events_spec(manifests@.take(m as int), agent@),
            atts == attestation_total(events@),
            warrs == events@.len() - attestation_total(events@),
        decreases manifests.len() - m,
    {
        let links = &manifests[m];
        let ghost start = events@;
        proof {
            lemma_events_prefix_len(manifests@, agent@, m as int + 1);
            assert(manifests@.take(m as int + 1).drop_last() =~= manifests@.take(m as int));
            assert(manifests@.take(m as int + 1).last() == manifests@[m as int]);
        }
        let mut i: usize = 0;
        while i < links.attestations.len()
            invariant
                i <= links.attestations.len(),
                m < manifests.len(),
                *links == manifests@[m as int],
                events@ == start + attestation_events(links.attestations@.take(i as int), agent@),
                start + attestation_events(links.attestations@, agent@) + warrant_events(links.warrants@)
                    == reputation_events_spec(manifests@.take(m as int + 1), agent@),
                reputation_events_spec(manifests@.take(m as int + 1), agent@).len() <= u32::MAX,
                atts == attestation_total(events@),
                warrs == events@.len() - attestation_total(events@),
            decreases links.attestations.len() - i,
        {
            let a = &links.attestations[i];
            assert(links.attestations@.take(i as int + 1).drop_last() =~= links.attestations@.take(i as int));
            proof {
                lemma_attestation_events_prefix_len(links.attestations@, agent@, i as int + 1);
                lemma_attestation_total_bound(events@);
            }
            if !bytes_equal(&a.author, agent) {
                let e = ReputationEvent { timestamp: a.timestamp, is_attestation: true };
                proof {
                    lemma_attestation_total_push(events@, e);
                    assert((start + attestation_events(links.attestations@.take(i as int), agent@)).push(e)
                        =~= start + attestation_events(links.attestations@.take(i as int + 1), agent@));
                }
                events.push(e);
                atts = atts + 1;
            }
            i = i + 1;
        }
        assert(links.attestations@.take(links.attestations.len() as int) =~= links.attestations@);
        let ghost mid = events@;
        let mut j: usize = 0;
        while j < links.warrants.len()
            invariant
                j <= links.warrants.len(),
                m < manifests.len(),
                *links == manifests@[m as int],
                events@ == mid + warrant_events(links.warrants@.take(j as int)),
                mid + warrant_events(links.warrants@) == reputation_events_spec(manifests@.take(m as int + 1), agent@),
                reputation_events_spec(manifests@.take(m as int + 1), agent@).len() <= u32::MAX,
                atts == attestation_total(events@),
                warrs == events@.len() - attestation_total(events@),
            decreases links.warrants.len() - j,
        {
            let e = ReputationEvent { timestamp: links.warrants[j].timestamp, is_attestation: false };
            proof {
                lemma_attestation_total_push(events@, e);
                lemma_attestation_total_bound(events@);
                assert((mid + warrant_events(links.warrants@.take(j as int))).push(e)
                    =~= mid + warrant_events(links.warrants@.take(j as int + 1)));
                assert(events@.len() < (mid + warrant_events(links.warrants@)).len());
            }
            events.push(e);
            warrs = warrs + 1;
            j = j + 1;
        }
        assert(links.warrants@.take(links.warrants.len() as int) =~= links.warrants@);
        m = m + 1;
    }
    assert(manifests@.take(manifests.len() as int) =~= manifests@);
    ReputationEvents { events, attestation_count: atts, warrant_count: warrs }
}

proof fn lemma_attestation_events_prefix_len(links: Seq<LinkInfo>, agent: Seq<u8>, i: int)
    requires
        0 <= i <= links.len(),
    ensures
        attestation_events(links.take(i), agent).len() <= attestation_events(links, agent).len(),
    decreases links.len(),
{
    if i < links.len() {
        assert(links.drop_last().take(i) =~= links.take(i));
        lemma_attestation_events_prefix_len(links.drop_last(), agent, i);
    } else {
        assert(links.take(i) =~= links);
    }
}

proof fn lemma_events_prefix_len(manifests: Seq<ManifestLinks>, agent: Seq<u8>, m: int)
    requires
        0 <= m <= manifests.len(),
    ensures
        reputation_events_spec(manifests.take(m), agent).len() <= reputation_events_spec(manifests, agent).len(),
    decreases manifests.len(),
{
    if m < manifests.len() {
        assert(manifests.drop_last().take(m) =~= manifests.take(m));
        lemma_events_prefix_len(manifests.drop_last(), agent, m);
    } else {
        assert(manifests.take(m) =~= manifests);
    }
}


/// The links in `links` made by someone other than `agent`, in link order.
pub open spec fn by_others(links: Seq<LinkInfo>, agent: Seq<u8>) -> Seq<LinkInfo>
    decreases links.len(),
{
    if links.len() == 0 {
        Seq::empty()
    } else {
        let rest = by_others(links.drop_last(), agent);
        if links.last().author@ != agent {
            rest.push(links.last())
        } else {
            rest
        }
    }
}

/// The attestation events that links give, one per link.
pub open spec fn attestation_stamps(links: Seq<LinkInfo>) -> Seq<ReputationEvent> {
    links.map_values(|l: LinkInfo| ReputationEvent { timestamp: l.timestamp, is_attestation: true })
}

proof fn lemma_attestation_events_by_others(links: Seq<LinkInfo>, agent: Seq<u8>)
    ensures
        attestation_events(links, agent) == attestation_stamps(by_others(links, agent)),
    decreases links.len(),
{
    if links.len() > 0 {
        lemma_attestation_events_by_others(links.drop_last(), agent);
        if links.last().author@ != agent {
            assert(attestation_stamps(by_others(links.drop_last(), agent).push(links.last()))
                =~= attestation_stamps(by_others(links.drop_last(), agent)).push(
                ReputationEvent { timestamp: links.last().timestamp, is_attestation: true },
            ));
        }
    } else {
        assert(attestation_stamps(by_others(links, agent)) =~= Seq::<ReputationEvent>::empty());
    }
}

/// Self-attestation earns nothing: two sets of manifests whose attestations
/// by others and whose warrants agree give the same reputation events, however
/// many attestations the agent made of its own manifests.
pub proof fn law_self_attestations_earn_nothing(
    first: Seq<ManifestLinks>,
    second: Seq<ManifestLinks>,
    agent: Seq<u8>,
)
    requires
        first.len() == second.len(),
        forall|i: int|
            0 <= i < first.len() ==> by_others(#[trigger] first[i].attestations@, agent) == by_others(
                second[i].attestations@,
                agent,
            ) && first[i].warrants@ == second[i].warrants@,
    ensures
        reputation_events_spec(first, agent) == reputation_events_spec(second, agent),
    decreases first.len(),
{
    if first.len() > 0 {
        let n = first.len() - 1;
        assert forall|i: int| 0 <= i < first.drop_last().len() implies by_others(
            #[trigger] first.drop_last()[i].attestations@,
            agent,
        ) == by_others(second.drop_last()[i].attestations@, agent) && first.drop_last()[i].warrants@
            == second.drop_last()[i].warrants@ by {
            assert(first.drop_last()[i] == first[i]);
            assert(second.drop_last()[i] == second[i]);
        }
        law_self_attestations_earn_nothing(first.drop_last(), second.drop_last(), agent);
        assert(by_others(first[n].attestations@, agent) == by_others(second[n].attestations@, agent));
        lemma_attestation_events_by_others(first.last().attestations@, agent);
        lemma_attestation_events_by_others(second.last().attestations@, agent);
    }
}

/// How many attestations by others the manifests carry.
pub open spec fn others_total(manifests: Seq<ManifestLinks>, agent: Seq<u8>) -> nat
    decreases manifests.len(),
{
    if manifests.len() == 0 {
        0
    } else {
        others_total(manifests.drop_last(), agent) + by_others(manifests.last().attestations@, agent).len()
    }
}

/// How many warrants the manifests carry.
pub open spec fn warrants_total(manifests: Seq<ManifestLinks>) -> nat
    decreases manifests.len(),
{
    if manifests.len() == 0 {
        0
    } else {
        warrants_total(manifests.drop_last()) + manifests.last().warrants@.len()
    }
}

proof fn lemma_attestation_total_concat(a: Seq<ReputationEvent>, b: Seq<ReputationEvent>)
    ensures
        attestation_total(a + b) == attestation_total(a) + attestation_total(b),
    decreases b.len(),
{
    if b.len() == 0 {
        assert(a + b =~= a);
    } else {
        lemma_attestation_total_concat(a, b.drop_last());
        assert((a + b).drop_last() =~= a + b.drop_last());
    }
}

proof fn lemma_attestation_total_stamps(links: Seq<LinkInfo>)
    ensures
        attestation_total(attestation_stamps(links)) == links.len(),
    decreases links.len(),
{
    if links.len() > 0 {
        lemma_attestation_total_stamps(links.drop_last());
        assert(attestation_stamps(links).drop_last() =~= attestation_stamps(links.drop_last()));
    }
}

proof fn lemma_attestation_total_warrants(links: Seq<LinkInfo>)
    ensures
        attestation_total(warrant_events(links)) == 0,
    decreases links.len(),
{
    if links.len() > 0 {
        lemma_attestation_total_warrants(links.drop_last());
        assert(warrant_events(links).drop_last() =~= warrant_events(links.drop_last()));
    }
}

/// The events of an agent's manifests are one attestation per attestation by
/// someone else and one warrant event per warrant.
pub proof fn law_reputation_event_counts(manifests: Seq<ManifestLinks>, agent: Seq<u8>)
    ensures
        attestation_total(reputation_events_spec(manifests, agent)) == others_total(manifests, agent),
        reputation_events_spec(manifests, agent).len() == others_total(manifests, agent) + warrants_total(
            manifests,
        ),
    decreases manifests.len(),
{
    if manifests.len() > 0 {
        let rest = manifests.drop_last();
        let last = manifests.last();
        law_reputation_event_counts(rest, agent);
        lemma_attestation_events_by_others(last.attestations@, agent);
        let a = reputation_events_spec(rest, agent);
        let b = attestation_events(last.attestations@, agent);
        let c = warrant_events(last.warrants@);
        lemma_attestation_total_concat(a, b);
        lemma_attestation_total_concat(a + b, c);
        lemma_attestation_total_stamps(by_others(last.attestations@, agent));
        lemma_attestation_total_warrants(last.warrants@);
    }
}

/// Events in time order.
pub open spec fn sorted_by_time(s: Seq<ReputationEvent>) -> bool {
    forall|i: int, j: int| 0 <= i <= j < s.len() ==> s[i].timestamp <= s[j].timestamp
}

/// The events of `s` made at time `t`, in their order in `s`.
pub open spec fn at_time(s: Seq<ReputationEvent>, t: i64) -> Seq<ReputationEvent>
    decreases s.len(),
{
    if s.len() == 0 {
        Seq::empty()
    } else {
        let rest = at_time(s.drop_last(), t);
        if s.last().timestamp == t {
            rest.push(s.last())
        } else {
            rest
        }
    }
}

proof fn lemma_at_time_concat(a: Seq<ReputationEvent>, b: Seq<ReputationEvent>, t: i64)
    ensures
        at_time(a + b, t) == at_time(a, t) + at_time(b, t),
    decreases b.len(),
{
    if b.len() == 0 {
        assert(a + b =~= a);
        assert(at_time(b, t) =~= Seq::<ReputationEvent>::empty());
        assert(at_time(a, t) + at_time(b, t) =~= at_time(a, t));
    } else {
        lemma_at_time_concat(a, b.drop_last(), t);
        assert((a + b).drop_last() =~= a + b.drop_last());
        assert((a + b).last() == b.last());
        if b.last().timestamp == t {
            assert(at_time(a, t) + at_time(b.drop_last(), t).push(b.last()) =~= (at_time(a, t) + at_time(
                b.drop_last(),
                t,
            )).push(b.last()));
        }
    }
}

proof fn lemma_at_time_none(s: Seq<ReputationEvent>, t: i64)
    requires
        forall|i: int| 0 <= i < s.len() ==> s[i].timestamp != t,
    ensures
        at_time(s, t) == Seq::<ReputationEvent>::empty(),
    decreases s.len(),
{
    if s.len() > 0 {
        lemma_at_time_none(s.drop_last(), t);
    }
}

proof fn lemma_at_time_single(e: ReputationEvent, t: i64)
    ensures
        at_time(seq![e], t) == (if e.timestamp == t { seq![e] } else { Seq::<ReputationEvent>::empty() }),
{
    let s = seq![e];
    assert(s.drop_last() =~= Seq::<ReputationEvent>::empty());
    assert(at_time(s.drop_last(), t) =~= Seq::<ReputationEvent>::empty());
    assert(s.last() == e);
    if e.timestamp == t {
        assert(Seq::<ReputationEvent>::empty().push(e) =~= seq![e]);
    }
}

/// Inserting `e` between the events not after it and those after it adds `e`
/// at the end of its time group and leaves the other groups alone.
proof fn lemma_insert_at_time(r: Seq<ReputationEvent>, p: int, e: ReputationEvent, t: i64)
    requires
        0 <= p <= r.len(),
        forall|k: int| p <= k < r.len() ==> r[k].timestamp > e.timestamp,
    ensures
        at_time(r.insert(p, e), t) == (if e.timestamp == t {
            at_time(r, t).push(e)
        } else {
            at_time(r, t)
        }),
{
    let a = r.take(p);
    let b = r.skip(p);
    assert(r =~= a + b);
    assert(r.insert(p, e) =~= a + seq![e] + b);
    lemma_at_time_concat(a, b, t);
    lemma_at_time_concat(a + seq![e], b, t);
    lemma_at_time_concat(a, seq![e], t);
    lemma_at_time_single(e, t);
    if e.timestamp == t {
        assert forall|i: int| 0 <= i < b.len() implies b[i].timestamp != t by {
            assert(b[i] == r[p + i]);
        }
        lemma_at_time_none(b, t);
        assert(at_time(a, t) + seq![e] =~= at_time(a, t).push(e));
        assert(at_time(a + seq![e], t) + at_time(b, t) =~= at_time(a + seq![e], t));
        assert(at_time(a, t) + at_time(b, t) =~= at_time(a, t));
    } else {
        assert(at_time(a, t) + Seq::<ReputationEvent>::empty() =~= at_time(a, t));
    }
}

proof fn lemma_insert_sorted(r: Seq<ReputationEvent>, p: int, e: ReputationEvent)
    requires
        0 <= p <= r.len(),
        sorted_by_time(r),
        forall|k: int| 0 <= k < p ==> r[k].timestamp <= e.timestamp,
        forall|k: int| p <= k < r.len() ==> r[k].timestamp > e.timestamp,
    ensures
        sorted_by_time(r.insert(p, e)),
{
    let n = r.insert(p, e);
    assert forall|x: int, y: int| 0 <= x <= y < n.len() implies n[x].timestamp <= n[y].timestamp by {
        if x < p && y < p {
            assert(n[x] == r[x] && n[y] == r[y]);
        } else if x < p && y == p {
            assert(n[x] == r[x]);
        } else if x < p {
            assert(n[x] == r[x] && n[y] == r[y - 1]);
        } else if x == p && y > p {
            assert(n[y] == r[y - 1]);
        } else if x > p {
            assert(n[x] == r[x - 1] && n[y] == r[y - 1]);
        }
    }
}

/// Orders events by time, keeping events made at the same time in their
/// original order (a stable sort).
pub fn sort_events_by_time(events: &Vec<ReputationEvent>) -> (r: Vec<ReputationEvent>)
    ensures
        sorted_by_time(r@),
        forall|t: i64| #[trigger] at_time(r@, t) == at_time(events@, t),
        r@.len() == events@.len(),
{
    let mut r: Vec<ReputationEvent> = Vec::new();
    let mut i: usize = 0;
    while i < events.len()
        invariant
            i <= events.len(),
            r@.len() == i,
            sorted_by_time(r@),
            forall|t: i64| #[trigger] at_time(r@, t) == at_time(events@.take(i as int), t),
        decreases events.len() - i,
    {
        let e = events[i];
        let mut p: usize = 0;
        while p < r.len() && r[p].timestamp <= e.timestamp
            invariant
                p <= r.len(),
                forall|k: int| 0 <= k < p ==> r@[k].timestamp <= e.timestamp,
            decreases r.len() - p,
        {
            p = p + 1;
        }
        let ghost old_r = r@;
        proof {
            assert forall|k: int| p <= k < old_r.len() implies old_r[k].timestamp > e.timestamp by {
                assert(old_r[p as int].timestamp > e.timestamp);
                assert(old_r[p as int].timestamp <= old_r[k].timestamp);
            }
            lemma_insert_sorted(old_r, p as int, e);
        }
        r.insert(p, e);
        proof {
            let pre = events@.take(i as int);
            let post = events@.take(i as int + 1);
            assert(post.drop_last() =~= pre);
            assert(post.last() == e);
            assert forall|t: i64| #[trigger] at_time(r@, t) == at_time(post, t) by {
                lemma_insert_at_time(old_r, p as int, e, t);
            }
        }
        i = i + 1;
    }
    assert(events@.take(events.len() as int) =~= events@);
    r
}


/// `order` lists the positions `0..ts.len()` each once, ordered by their
/// timestamps, and positions with equal timestamps in their original order
/// (the order a stable sort by timestamp gives).
pub open spec fn is_stable_time_order(ts: Seq<i64>, order: Seq<usize>) -> bool {
    &&& order.len() == ts.len()
    &&& order.no_duplicates()
    &&& forall|a: int| 0 <= a < order.len() ==> order[a] < ts.len()
    &&& forall|a: int, b: int|
        0 <= a < b < order.len() ==> ts[order[a] as int] <= ts[order[b] as int]
    &&& forall|a: int, b: int|
        0 <= a < b < order.len() && ts[order[a] as int] == ts[order[b] as int] ==> order[a] < order[b]
}

proof fn lemma_insert_position(o: Seq<usize>, p: int, i: usize, ts: Seq<i64>)
    requires
        0 <= p <= o.len(),
        o.len() == i,
        i < ts.len(),
        o.no_duplicates(),
        forall|a: int| 0 <= a < o.len() ==> o[a] < i,
        forall|a: int, b: int| 0 <= a < b < o.len() ==> ts[o[a] as int] <= ts[o[b] as int],
        forall|a: int, b: int|
            0 <= a < b < o.len() && ts[o[a] as int] == ts[o[b] as int] ==> o[a] < o[b],
        forall|a: int| 0 <= a < p ==> ts[o[a] as int] <= ts[i as int],
        forall|a: int| p <= a < o.len() ==> ts[o[a] as int] > ts[i as int],
    ensures
        is_stable_time_order(ts.take(i + 1), o.insert(p, i)),
{
    let n = o.insert(p, i);
    let t = ts.take(i + 1);
    assert forall|a: int| 0 <= a < n.len() implies n[a] < t.len() by {
        if a < p { assert(n[a] == o[a]); } else if a > p { assert(n[a] == o[a - 1]); }
    }
    assert forall|a: int| 0 <= a < n.len() implies t[n[a] as int] == ts[n[a] as int] by {
        if a < p { assert(n[a] == o[a]); } else if a > p { assert(n[a] == o[a - 1]); }
    }
    assert forall|a: int, b: int| 0 <= a < b < n.len() implies n[a] != n[b] by {
        if a < p && b < p {
            assert(n[a] == o[a] && n[b] == o[b]);
        } else if a < p && b == p {
            assert(n[a] == o[a]);
        } else if a < p {
            assert(n[a] == o[a] && n[b] == o[b - 1]);
        } else if a == p {
            assert(n[b] == o[b - 1]);
        } else {
            assert(n[a] == o[a - 1] && n[b] == o[b - 1]);
        }
    }
    assert forall|a: int, b: int| 0 <= a < b < n.len() implies t[n[a] as int] <= t[n[b] as int]
        && (t[n[a] as int] == t[n[b] as int] ==> n[a] < n[b]) by {
        assert(t[n[a] as int] == ts[n[a] as int]);
        assert(t[n[b] as int] == ts[n[b] as int]);
        if a < p && b < p {
            assert(n[a] == o[a] && n[b] == o[b]);
        } else if a < p && b == p {
            assert(n[a] == o[a]);
        } else if a < p {
            assert(n[a] == o[a] && n[b] == o[b - 1]);
        } else if a == p {
            assert(n[b] == o[b - 1]);
        } else {
            assert(n[a] == o[a - 1] && n[b] == o[b - 1]);
        }
    }
}

/// The positions of `ts` in stable timestamp order: ascending timestamps, and
/// equal timestamps in their original order.
pub fn stable_time_order(ts: &Vec<i64>) -> (r: Vec<usize>)
    ensures
        is_stable_time_order(ts@, r@),
{
    let mut r: Vec<usize> = Vec::new();
    let mut i: usize = 0;
    assert(ts@.take(0) =~= Seq::<i64>::empty());
    while i < ts.len()
        invariant
            i <= ts.len(),
            r@.len() == i,
            r@.no_duplicates(),
            forall|a: int| 0 <= a < r@.len() ==> r@[a] < i,
            forall|a: int, b: int| 0 <= a < b < r@.len() ==> ts@[r@[a] as int] <= ts@[r@[b] as int],
            forall|a: int, b: int|
                0 <= a < b < r@.len() && ts@[r@[a] as int] == ts@[r@[b] as int] ==> r@[a] < r@[b],
        decreases ts.len() - i,
    {
        let t = ts[i];
        let mut p: usize = 0;
        while p < r.len() && ts[r[p]] <= t
            invariant
                p <= r.len(),
                r@.len() == i,
                i < ts.len(),
                forall|a: int| 0 <= a < r@.len() ==> r@[a] < i,
                t == ts@[i as int],
                forall|a: int| 0 <= a < p ==> ts@[r@[a] as int] <= t,
            decreases r.len() - p,
        {
            p = p + 1;
        }
        let ghost old_r = r@;
        proof {
            assert forall|a: int| p <= a < old_r.len() implies ts@[old_r[a] as int] > t by {
                assert(ts@[old_r[p as int] as int] > t);
                assert(ts@[old_r[p as int] as int] <= ts@[old_r[a] as int]);
            }
            lemma_insert_position(old_r, p as int, i, ts@);
        }
        r.insert(p, i);
        proof {
            let n = r@;
            let tk = ts@.take(i as int + 1);
            assert forall|a: int| 0 <= a < n.len() implies n[a] < i + 1 && tk[n[a] as int] == ts@[n[a] as int] by {}
        }
        i = i + 1;
    }
    assert(ts@.take(ts.len() as int) =~= ts@);
    r
}

/// The timestamps of `links`, in link order.
pub open spec fn link_times(links: Seq<LinkInfo>) -> Seq<i64> {
    links.map_values(|l: LinkInfo| l.timestamp)
}

/// No two links share a timestamp.
pub open spec fn distinct_times(links: Seq<LinkInfo>) -> bool {
    forall|i: int, j: int| 0 <= i < j < links.len() ==> links[i].timestamp != links[j].timestamp
}

/// `links` taken in the order the positions `order` give.
pub open spec fn arranged(links: Seq<LinkInfo>, order: Seq<usize>) -> Seq<LinkInfo> {
    Seq::new(order.len(), |a: int| links[order[a] as int])
}

/// Position `x` occurs in `order`.
pub open spec fn occurs_in(order: Seq<usize>, x: int) -> bool {
    exists|a: int| 0 <= a < order.len() && order[a] as int == x
}

proof fn lemma_positions_cover(o: Seq<usize>, n: int)
    requires
        o.len() == n,
        o.no_duplicates(),
        forall|a: int| 0 <= a < o.len() ==> o[a] < n,
    ensures
        forall|x: int| 0 <= x < n ==> #[trigger] occurs_in(o, x),
{
    let s = o.map_values(|v: usize| v as int);
    assert(s.no_duplicates()) by {
        assert forall|i: int, j: int| 0 <= i < s.len() && 0 <= j < s.len() && i != j implies s[i] != s[j] by {
            assert(o[i] != o[j]);
        }
    }
    s.unique_seq_to_set();
    vstd::set_lib::lemma_int_range(0, n);
    let range = vstd::set_lib::set_int_range(0, n);
    assert(s.to_set().subset_of(range)) by {
        assert forall|x: int| s.to_set().contains(x) implies range.contains(x) by {
            let a = choose|a: int| 0 <= a < s.len() && s[a] == x;
            assert(o[a] < n);
        }
    }
    vstd::set_lib::lemma_len_subset(s.to_set(), range);
    vstd::set_lib::lemma_subset_equality(s.to_set(), range);
    assert forall|x: int| 0 <= x < n implies #[trigger] occurs_in(o, x) by {
        assert(range.contains(x));
        assert(s.to_set().contains(x));
        let a = choose|a: int| 0 <= a < s.len() && s[a] == x;
        assert(o[a] as int == x);
    }
}

proof fn lemma_increasing_prefix(s1: Seq<LinkInfo>, s2: Seq<LinkInfo>, a: int)
    requires
        s1.len() == s2.len(),
        0 <= a <= s1.len(),
        forall|i: int, j: int| 0 <= i < j < s1.len() ==> s1[i].timestamp < s1[j].timestamp,
        forall|i: int, j: int| 0 <= i < j < s2.len() ==> s2[i].timestamp < s2[j].timestamp,
        forall|x: LinkInfo| s1.contains(x) <==> s2.contains(x),
    ensures
        forall|c: int| 0 <= c < a ==> s1[c] == s2[c],
    decreases a,
{
    if a > 0 {
        lemma_increasing_prefix(s1, s2, a - 1);
        let k = a - 1;
        let x = s1[k];
        assert(s1.contains(x));
        let b = choose|b: int| 0 <= b < s2.len() && s2[b] == x;
        let y = s2[k];
        assert(s2.contains(y));
        let d = choose|d: int| 0 <= d < s1.len() && s1[d] == y;
        if b < k {
            assert(s1[b] == s2[b]);
            assert(s1[b].timestamp < s1[k].timestamp);
        }
        if d < k {
            assert(s1[d] == s2[d]);
            assert(s2[d].timestamp < s2[k].timestamp);
        }
        if b > k {
            assert(y.timestamp < x.timestamp);
            if d > k {
                assert(x.timestamp < y.timestamp);
            }
        }
    }
}

/// The order `stable_time_order` gives does not depend on the order in which
/// the links came: two lists holding the same links, with no two sharing a
/// timestamp, give the same links in the same time order.
pub proof fn law_time_order_ignores_link_order(
    links1: Seq<LinkInfo>,
    links2: Seq<LinkInfo>,
    order1: Seq<usize>,
    order2: Seq<usize>,
)
    requires
        links1.len() == links2.len(),
        distinct_times(links1),
        distinct_times(links2),
        forall|x: LinkInfo| links1.contains(x) <==> links2.contains(x),
        is_stable_time_order(link_times(links1), order1),
        is_stable_time_order(link_times(links2), order2),
    ensures
        arranged(links1, order1) == arranged(links2, order2),
{
    let n = links1.len() as int;
    let s1 = arranged(links1, order1);
    let s2 = arranged(links2, order2);
    lemma_positions_cover(order1, n);
    lemma_positions_cover(order2, n);
    assert forall|i: int, j: int| 0 <= i < j < s1.len() implies s1[i].timestamp < s1[j].timestamp by {
        assert(link_times(links1)[order1[i] as int] == s1[i].timestamp);
        assert(link_times(links1)[order1[j] as int] == s1[j].timestamp);
        assert(order1[i] != order1[j]);
        if order1[i] < order1[j] {
            assert(links1[order1[i] as int].timestamp != links1[order1[j] as int].timestamp);
        } else {
            assert(links1[order1[j] as int].timestamp != links1[order1[i] as int].timestamp);
        }
    }
    assert forall|i: int, j: int| 0 <= i < j < s2.len() implies s2[i].timestamp < s2[j].timestamp by {
        assert(link_times(links2)[order2[i] as int] == s2[i].timestamp);
        assert(link_times(links2)[order2[j] as int] == s2[j].timestamp);
        assert(order2[i] != order2[j]);
        if order2[i] < order2[j] {
            assert(links2[order2[i] as int].timestamp != links2[order2[j] as int].timestamp);
        } else {
            assert(links2[order2[j] as int].timestamp != links2[order2[i] as int].timestamp);
        }
    }
    assert forall|x: LinkInfo| s1.contains(x) <==> s2.contains(x) by {
        if s1.contains(x) {
            let a = choose|a: int| 0 <= a < s1.len() && s1[a] == x;
            assert(links1[order1[a] as int] == x);
            assert(links1.contains(x));
            assert(links2.contains(x));
            let p = choose|p: int| 0 <= p < links2.len() && links2[p] == x;
            assert(occurs_in(order2, p));
            let c = choose|c: int| 0 <= c < order2.len() && order2[c] as int == p;
            assert(s2[c] == x);
        }
        if s2.contains(x) {
            let a = choose|a: int| 0 <= a < s2.len() && s2[a] == x;
            assert(links2[order2[a] as int] == x);
            assert(links2.contains(x));
            assert(links1.contains(x));
            let p = choose|p: int| 0 <= p < links1.len() && links1[p] == x;
            assert(occurs_in(order1, p));
            let c = choose|c: int| 0 <= c < order1.len() && order1[c] as int == p;
            assert(s1[c] == x);
        }
    }
    lemma_increasing_prefix(s1, s2, n);
    assert(s1 =~= s2);
}

/// What the registry announces when one of its entries is committed.
#[derive(Debug, Clone, PartialEq, Eq)]
pub enum RegistrySignal {
    ManifestCreated { action_hash: Vec<u8> },
    AttestationCreated { action_hash: Vec<u8> },
    WarrantCreated { action_hash: Vec<u8> },
}

/// The signal for a newly created app entry, by the entry type's index in the
/// registry's entry types: manifests, attestations and warrants are announced,
/// the other entry types are not.
pub fn registry_signal(entry_index: u8, action_hash: Vec<u8>) -> (r: Option<RegistrySignal>)
    ensures
        entry_index == 0 ==> r == Some(RegistrySignal::ManifestCreated { action_hash }),
        entry_index == 1 ==> r == Some(RegistrySignal::AttestationCreated { action_hash }),
        entry_index == 2 ==> r == Some(RegistrySignal::WarrantCreated { action_hash }),
        entry_index > 2 ==> r is None,
{
    match entry_index {
        0 => Some(RegistrySignal::ManifestCreated { action_hash }),
        1 => Some(RegistrySignal::AttestationCreated { action_hash }),
        2 => Some(RegistrySignal::WarrantCreated { action_hash }),
        _ => None,
    }
}

} // verus!
