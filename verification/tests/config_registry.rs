use std::collections::BTreeSet;

use ores_clis_core::{
    is_registered_runtime_config, root_config_identities, root_config_identity, REGISTERED_RUNTIME_CONFIGS,
    SHARED_AUTH_COMPAT_CONFIG, SHARED_AUTH_CONFIG,
};

#[test]
fn registered_runtime_names_are_unique() {
    let names = REGISTERED_RUNTIME_CONFIGS.iter().copied().collect::<BTreeSet<_>>();
    assert_eq!(names.len(), REGISTERED_RUNTIME_CONFIGS.len());
}

#[test]
fn canonical_shared_auth_and_opto_sync_match_portfolio_policy() {
    let shared = root_config_identity("shared-auth").expect("shared-auth identity");
    assert_eq!(shared.canonical, ".shared-auth.toml");
    assert_eq!(shared.compatibility_aliases, &[".auth-shared.toml"]);
    assert_eq!(root_config_identity("opto-sync").expect("opto identity").canonical, ".opto-sync.toml");
}

#[test]
fn server_runtime_config_names_are_canonical_and_registered() {
    for (concern, expected) in [
        ("ores-middleware", ".ores-mw.toml"),
        ("ores-sops", ".ores-sops.toml"),
        ("ores-dnd", ".ores-dnd.toml"),
        ("ores-websocket", ".ores-ws.toml"),
        ("ores-service-worker", ".ores-sw.toml"),
        ("ores-sidecar", ".ores-sidecar.toml"),
    ] {
        let identity = root_config_identity(concern).expect("runtime config identity");
        assert_eq!(identity.canonical, expected);
        assert!(is_registered_runtime_config(expected), "{expected} must be in REGISTERED_RUNTIME_CONFIGS");
    }
}

#[test]
fn compatibility_alias_is_registered_but_not_canonical() {
    assert!(is_registered_runtime_config(SHARED_AUTH_COMPAT_CONFIG));
    assert_ne!(SHARED_AUTH_CONFIG, SHARED_AUTH_COMPAT_CONFIG);
}

// Further cases of the registry.

#[test]
fn unknown_concerns_and_names_are_rejected() {
    assert!(root_config_identity("no-such-concern").is_none());
    assert!(root_config_identity("").is_none());
    assert!(!is_registered_runtime_config(".unknown.toml"));
    assert!(!is_registered_runtime_config("ores-sops.toml"));
    assert!(!is_registered_runtime_config(".cli-flags.toml"));
}

#[test]
fn identity_table_lists_each_concern_once() {
    let identities = root_config_identities();
    assert_eq!(identities.len(), 12);
    let concerns = identities.iter().map(|identity| identity.concern).collect::<BTreeSet<_>>();
    assert_eq!(concerns.len(), identities.len());
    assert_eq!(identities[0].concern, "cli-flags");
    assert_eq!(root_config_identity("cli-flags").unwrap().canonical, ".cli-flags.toml");
    assert!(root_config_identity("ores-lru").unwrap().compatibility_aliases.is_empty());
}
