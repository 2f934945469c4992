use toric::holochain::{distinct_keys, targets_of_kind, LinkInfo, LinkableHash, LinkableKind};
use toric::registry::{
    cache_after_commit, cache_after_reveal, cache_with_score, confirmed_severity, distinct_authors,
    find_own_manifest, manifest_blob_scoreable, manifest_content_hash, registry_signal,
    reputation_cache_fresh, reputation_events, sort_events_by_time, stable_time_order, trust_cache_fresh,
    ManifestLinks, RegistrySignal, ReputationEvent,
};
use toric::registry_integrity::ReputationCache;

fn link(author: u8, kind: LinkableKind, target: u8, ts: i64) -> LinkInfo {
    LinkInfo { author: vec![author], target: LinkableHash { kind, bytes: vec![target] }, timestamp: ts }
}

#[test]
fn targets_keep_only_the_requested_kind() {
    let links = vec![
        link(1, LinkableKind::Action, 10, 0),
        link(1, LinkableKind::Entry, 11, 0),
        link(2, LinkableKind::Action, 12, 0),
        link(2, LinkableKind::External, 13, 0),
    ];
    assert_eq!(targets_of_kind(&links, LinkableKind::Action), vec![vec![10], vec![12]]);
    assert_eq!(targets_of_kind(&links, LinkableKind::Entry), vec![vec![11]]);
}

#[test]
fn own_manifest_found_by_content_hash() {
    let links = vec![
        link(2, LinkableKind::Action, 20, 0),
        link(1, LinkableKind::Entry, 21, 0),
        link(1, LinkableKind::Action, 22, 0),
        link(1, LinkableKind::Action, 23, 0),
    ];
    assert_eq!(find_own_manifest(&links, &vec![1]), Some(vec![22]));
    assert_eq!(find_own_manifest(&links, &vec![3]), None);
}

#[test]
fn reputation_cache_goes_stale_on_newer_foreign_attestation_or_warrant() {
    let fresh = ManifestLinks {
        attestations: vec![link(2, LinkableKind::Action, 1, 100), link(1, LinkableKind::Action, 2, 900)],
        warrants: vec![link(3, LinkableKind::Action, 3, 50)],
    };
    let old_signal = vec![link(7, LinkableKind::Action, 9, 100)];
    assert!(reputation_cache_fresh(&vec![fresh.clone()], &old_signal, &vec![1], 100));
    let newer_attestation = ManifestLinks { attestations: vec![link(2, LinkableKind::Action, 1, 101)], warrants: vec![] };
    assert!(!reputation_cache_fresh(&vec![fresh.clone(), newer_attestation], &vec![], &vec![1], 100));
    let newer_warrant = ManifestLinks { attestations: vec![], warrants: vec![link(1, LinkableKind::Action, 1, 101)] };
    assert!(!reputation_cache_fresh(&vec![newer_warrant], &vec![], &vec![1], 100));
}

#[test]
fn reputation_cache_goes_stale_on_newer_convergence_signal() {
    let quiet = ManifestLinks { attestations: vec![], warrants: vec![] };
    let signal = vec![link(7, LinkableKind::Action, 9, 150)];
    assert!(reputation_cache_fresh(&vec![quiet.clone()], &signal, &vec![1], 150));
    assert!(!reputation_cache_fresh(&vec![quiet], &signal, &vec![1], 149));
}

#[test]
fn trust_cache_goes_stale_on_newer_links() {
    let a = vec![link(1, LinkableKind::Action, 1, 10)];
    let c = vec![link(1, LinkableKind::Action, 1, 20)];
    assert!(trust_cache_fresh(&a, &c, 20));
    assert!(!trust_cache_fresh(&a, &c, 19));
    assert!(!trust_cache_fresh(&c, &vec![], 10));
}

fn cache(commits: u32, reveals: u32) -> ReputationCache {
    ReputationCache {
        agent: vec![1],
        score: 381966,
        score_delta: -5,
        computed_at: 1,
        attestation_count: 4,
        warrant_count: 2,
        total_commits: commits,
        total_reveals: reveals,
    }
}

#[test]
fn counters_increment_one_at_a_time() {
    let c = cache_after_commit(&vec![1], &Some(cache(3, 2)), 99);
    assert_eq!(c, ReputationCache { computed_at: 99, total_commits: 4, ..cache(3, 2) });
    let r = cache_after_reveal(&vec![1], &Some(cache(3, 2)), 99);
    assert_eq!(r, ReputationCache { computed_at: 99, total_reveals: 3, ..cache(3, 2) });
    let fresh = cache_after_commit(&vec![8], &None, 7);
    assert_eq!(
        fresh,
        ReputationCache {
            agent: vec![8],
            score: 0,
            score_delta: 0,
            computed_at: 7,
            attestation_count: 0,
            warrant_count: 0,
            total_commits: 1,
            total_reveals: 0,
        }
    );
    let p = cache_with_score(&vec![1], &Some(cache(3, 2)), 50, 1);
    assert_eq!(p, ReputationCache { computed_at: 50, score: 1, ..cache(3, 2) });
}

#[test]
fn warrant_severity_from_blob() {
    assert_eq!(confirmed_severity(&b"WARRANT{\"computed_severity\": 250000}".to_vec()), 250000);
    assert_eq!(confirmed_severity(&b"{\"computed_severity\": 4294967297}".to_vec()), 1);
    assert_eq!(confirmed_severity(&b"{\"computed_severity\": \"high\"}".to_vec()), 0);
    assert_eq!(confirmed_severity(&b"no json".to_vec()), 0);
}

#[test]
fn only_artifact_manifests_are_scoreable() {
    assert!(manifest_blob_scoreable(&b"{\"blob_type\":\"ai_model\",\"content_hash\":\"abc\"}".to_vec()));
    assert!(manifest_blob_scoreable(&b"{\"blob_type\":\"inference_endpoint\"}".to_vec()));
    assert!(!manifest_blob_scoreable(&b"{\"blob_type\":\"connector\"}".to_vec()));
    assert!(!manifest_blob_scoreable(&b"\"blob_type\"".to_vec()));
    assert_eq!(manifest_content_hash(&b"{\"blob_type\":\"dataset\",\"content_hash\":\"abc\"}".to_vec()), Some("abc".to_string()));
    assert_eq!(manifest_content_hash(&b"{\"blob_type\":\"dataset\"}".to_vec()), None);
    assert_eq!(manifest_content_hash(&b"content_hash".to_vec()), None);
}

#[test]
fn authors_counted_once() {
    let links = vec![
        link(3, LinkableKind::Action, 1, 0),
        link(1, LinkableKind::Action, 1, 0),
        link(3, LinkableKind::Action, 1, 0),
    ];
    assert_eq!(distinct_authors(&links), vec![vec![3], vec![1]]);
}

#[test]
fn events_collected_and_sorted_stably() {
    let manifests = vec![
        ManifestLinks {
            attestations: vec![link(2, LinkableKind::Action, 1, 30), link(1, LinkableKind::Action, 1, 5)],
            warrants: vec![link(4, LinkableKind::Action, 1, 10)],
        },
        ManifestLinks { attestations: vec![link(3, LinkableKind::Action, 1, 10)], warrants: vec![] },
    ];
    let ev = reputation_events(&manifests, &vec![1]);
    assert_eq!(ev.attestation_count, 2);
    assert_eq!(ev.warrant_count, 1);
    assert_eq!(
        ev.events,
        vec![
            ReputationEvent { timestamp: 30, is_attestation: true },
            ReputationEvent { timestamp: 10, is_attestation: false },
            ReputationEvent { timestamp: 10, is_attestation: true },
        ]
    );
    assert_eq!(
        sort_events_by_time(&ev.events),
        vec![
            ReputationEvent { timestamp: 10, is_attestation: false },
            ReputationEvent { timestamp: 10, is_attestation: true },
            ReputationEvent { timestamp: 30, is_attestation: true },
        ]
    );
}

#[test]
fn signals_for_manifests_attestations_and_warrants() {
    assert_eq!(registry_signal(0, vec![1]), Some(RegistrySignal::ManifestCreated { action_hash: vec![1] }));
    assert_eq!(registry_signal(1, vec![1]), Some(RegistrySignal::AttestationCreated { action_hash: vec![1] }));
    assert_eq!(registry_signal(2, vec![1]), Some(RegistrySignal::WarrantCreated { action_hash: vec![1] }));
    assert_eq!(registry_signal(3, vec![1]), None);
}

#[test]
fn repeated_targets_read_once() {
    let keys = vec![vec![3], vec![1], vec![3], vec![2], vec![1]];
    assert_eq!(distinct_keys(&keys), vec![vec![3], vec![1], vec![2]]);
    assert_eq!(distinct_keys(&vec![]), Vec::<Vec<u8>>::new());
}

#[test]
fn positions_in_stable_time_order() {
    assert_eq!(stable_time_order(&vec![30, 10, 20, 10, 30]), vec![1, 3, 2, 0, 4]);
    assert_eq!(stable_time_order(&vec![]), Vec::<usize>::new());
    assert_eq!(stable_time_order(&vec![5, 5, 5]), vec![0, 1, 2]);
}

#[test]
fn self_attestations_earn_nothing() {
    let others = ManifestLinks {
        attestations: vec![link(2, LinkableKind::Action, 1, 30)],
        warrants: vec![link(4, LinkableKind::Action, 1, 10)],
    };
    let with_own = ManifestLinks {
        attestations: vec![
            link(1, LinkableKind::Action, 1, 5),
            link(2, LinkableKind::Action, 1, 30),
            link(1, LinkableKind::Action, 1, 40),
        ],
        warrants: others.warrants.clone(),
    };
    assert_eq!(reputation_events(&vec![others], &vec![1]), reputation_events(&vec![with_own], &vec![1]));
}

#[test]
fn second_manifest_creation_finds_the_first() {
    let mut links = vec![link(2, LinkableKind::Action, 8, 1), link(1, LinkableKind::Entry, 9, 2)];
    assert_eq!(find_own_manifest(&links, &vec![1]), None);
    links.push(link(1, LinkableKind::Action, 7, 3));
    assert_eq!(find_own_manifest(&links, &vec![1]), Some(vec![7]));
    links.push(link(1, LinkableKind::Action, 6, 4));
    assert_eq!(find_own_manifest(&links, &vec![1]), Some(vec![7]));
}

#[test]
fn text_that_is_not_json_gives_no_fields() {
    assert_eq!(confirmed_severity(&b"{\"computed_severity\": 5".to_vec()), 0);
    assert!(!manifest_blob_scoreable(&b"{\"blob_type\":\"ai_model\"".to_vec()));
    assert_eq!(manifest_content_hash(&b"{content_hash: abc}".to_vec()), None);
}
