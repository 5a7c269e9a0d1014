use siggy::backend::native::receive::{peer_id, IdentityResolver};
use siggy::backend::native::store::{
    native_root, native_root_in, path_join, store_dir, store_dir_in, store_file, store_file_in,
};
use siggy::backend::native::supervisor::{backoff, non_empty, StoreResolver};
use std::time::Duration;

#[test]
fn backoff_matches_reconnect_policy_schedule_without_a_cap() {
    assert_eq!(backoff(1), Duration::from_secs(2));
    assert_eq!(backoff(2), Duration::from_secs(4));
    assert_eq!(backoff(4), Duration::from_secs(16));
    assert_eq!(backoff(5), Duration::from_secs(30));
    assert_eq!(backoff(100_000), Duration::from_secs(30));
}

#[test]
fn resolver_applies_the_ktd6_selection_rule() {
    let mut resolver = StoreResolver::new();
    resolver.insert(
        "aaaa".to_string(),
        Some("+15550001111".to_string()),
        Some("Ada".to_string()),
    );
    resolver.insert("bbbb".to_string(), None, None);
    assert_eq!(
        resolver.number_for_aci("aaaa").as_deref(),
        Some("+15550001111")
    );
    assert_eq!(resolver.name_for_aci("aaaa").as_deref(), Some("Ada"));
    assert_eq!(resolver.number_for_aci("bbbb"), None);
    assert_eq!(resolver.number_for_aci("unknown"), None);
}

#[test]
fn resolver_later_insert_replaces_and_keys_peers() {
    let mut resolver = StoreResolver::new();
    resolver.insert("aaaa".to_string(), None, Some("Old".to_string()));
    resolver.insert("cccc".to_string(), Some("+1".to_string()), None);
    resolver.insert("aaaa".to_string(), Some("+2".to_string()), Some("New".to_string()));
    assert_eq!(resolver.name_for_aci("aaaa").as_deref(), Some("New"));
    assert_eq!(resolver.number_for_aci("cccc").as_deref(), Some("+1"));
    assert_eq!(peer_id("aaaa", &resolver), "+2");
    assert_eq!(peer_id("dddd", &resolver), "dddd");
}

#[test]
fn non_empty_drops_empty_strings_only() {
    assert_eq!(non_empty(""), None);
    assert_eq!(non_empty(" "), Some(" ".to_string()));
    assert_eq!(non_empty("x"), Some("x".to_string()));
}

#[test]
fn store_paths_are_per_account() {
    let a = store_dir("+15551230001");
    let b = store_dir("+15551230002");
    assert_ne!(a, b);
    assert!(a.ends_with("+15551230001"));
    assert!(store_file("+15551230001").starts_with(&a));
}

#[test]
fn store_dir_lives_under_native_root() {
    assert!(store_dir("+15551230001").starts_with(&native_root()));
    assert!(native_root().ends_with("siggy/native"));
    assert!(store_file("+1").ends_with("+1/store.sqlite"));
}

#[test]
fn path_join_follows_unix_rules() {
    assert_eq!(path_join("/a", "b"), "/a/b");
    assert_eq!(path_join("/a/", "b"), "/a/b");
    assert_eq!(path_join("", "b"), "b");
    assert_eq!(path_join("/a", "/abs"), "/abs");
    assert_eq!(path_join("/a", ""), "/a/");
}

#[test]
fn store_paths_under_a_given_data_dir() {
    assert_eq!(native_root_in(Some("/home/a/.local/share")), "/home/a/.local/share/siggy/native");
    assert_eq!(native_root_in(None), "./siggy/native");
    assert_eq!(store_dir_in("/r/siggy/native", "+1555"), "/r/siggy/native/+1555");
    assert_eq!(
        store_file_in("/r/siggy/native", "+1555"),
        "/r/siggy/native/+1555/store.sqlite"
    );
}
