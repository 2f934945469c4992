use toric::launcher::{conductor_config, conductor_wait_step, setting, has_affixes_bytes, latest_store_entry, lex_le_bytes, WaitStep};

fn names(ns: &[&str]) -> Vec<Vec<u8>> {
    ns.iter().map(|n| n.as_bytes().to_vec()).collect()
}

fn b(s: &str) -> Vec<u8> {
    s.as_bytes().to_vec()
}

#[test]
fn names_compare_byte_by_byte() {
    assert!(lex_le_bytes(&b("glibc-2.37"), &b("glibc-2.38")));
    assert!(!lex_le_bytes(&b("glibc-2.38"), &b("glibc-2.37")));
    assert!(lex_le_bytes(&b("gcc"), &b("gcc-12")));
    assert!(!lex_le_bytes(&b("gcc-12"), &b("gcc")));
    assert!(lex_le_bytes(&b("same"), &b("same")));
    assert!(lex_le_bytes(&b(""), &b("")));
}

#[test]
fn affixes_are_checked_at_both_ends() {
    assert!(has_affixes_bytes(&b("gcc-12.3.0-lib"), &b("gcc-"), &b("-lib")));
    assert!(!has_affixes_bytes(&b("gcc-12.3.0"), &b("gcc-"), &b("-lib")));
    assert!(!has_affixes_bytes(&b("libgcc-12-lib"), &b("gcc-"), &b("-lib")));
    assert!(has_affixes_bytes(&b("glibc-2.38-44"), &b("glibc-"), &b("")));
    assert!(!has_affixes_bytes(&b("gl"), &b("glibc-"), &b("")));
}

#[test]
fn newest_glibc_and_gcc_lib_are_chosen() {
    let store = names(&[
        "abc-glibc-2.40",
        "glibc-2.37-8",
        "gcc-12.3.0-lib",
        "glibc-2.38-44",
        "gcc-13.2.0",
        "gcc-11.4.0-lib",
        "glibc-2.38-27-bin",
    ]);
    assert_eq!(latest_store_entry(&store, &b("glibc-"), &b("")), Some(3));
    assert_eq!(latest_store_entry(&store, &b("gcc-"), &b("-lib")), Some(2));
    assert_eq!(latest_store_entry(&store, &b("python3-"), &b("")), None);
    assert_eq!(latest_store_entry(&vec![], &b("glibc-"), &b("")), None);
}

#[test]
fn last_of_equal_names_wins() {
    let store = names(&["glibc-2.38", "glibc-2.37", "glibc-2.38"]);
    assert_eq!(latest_store_entry(&store, &b("glibc-"), &b("")), Some(2));
}

#[test]
fn waiting_for_the_conductor() {
    assert_eq!(conductor_wait_step(true, 500, 300), WaitStep::Ready);
    assert_eq!(conductor_wait_step(false, 299, 300), WaitStep::Retry);
    assert_eq!(conductor_wait_step(false, 300, 300), WaitStep::TimedOut);
    assert_eq!(conductor_wait_step(false, 0, 0), WaitStep::TimedOut);
}

#[test]
fn settings_fall_back_from_environment_to_built_in_to_default() {
    assert_eq!(setting(Some("env".to_string()), Some("built"), "default"), "env");
    assert_eq!(setting(None, Some("built"), "default"), "built");
    assert_eq!(setting(None, None, "default"), "default");
}

#[test]
fn conductor_config_text() {
    let data_dir = "/data/toric";
    let bootstrap_url = "http://192.168.1.169:8888";
    let signal_url = "wss://signal.example";
    let relay_url = "wss://relay.example";
    let expected = format!(
        "---\ndata_root_path: {data_dir}\nkeystore:\n  type: lair_server_in_proc\nadmin_interfaces:\n  - driver:\n      type: websocket\n      port: 44121\n      allowed_origins: \"*\"\nnetwork:\n  bootstrap_url: \"{bootstrap_url}\"\n  signal_url: \"{signal_url}\"\n  relay_url: \"{relay_url}\"\n  signal_allow_plain_text: true\n  danger_allow_non_tls_relay: true\ndb_sync_strategy: Fast\n",
        data_dir = data_dir,
        bootstrap_url = bootstrap_url,
        signal_url = signal_url,
        relay_url = relay_url,
    );
    assert_eq!(conductor_config(data_dir, bootstrap_url, signal_url, relay_url), expected);
}
