//! Repository-root configuration filenames shared across CLIs.
use vstd::prelude::*;

use crate::args::token_views;
use crate::text::str_equals;

verus! {

/// Canonical repository-root CLI flag contract.
pub const CLI_FLAGS_CONFIG: &'static str = ".cli-flags.toml";

/// Canonical repository-root OpenTelemetry contract.
pub const ORES_OTEL_CONFIG: &'static str = ".ores-otel.toml";

/// Canonical repository-root Opto Sync contract.
pub const OPTO_SYNC_CONFIG: &'static str = ".opto-sync.toml";

/// Canonical repository-root middleware contract.
pub const ORES_MW_CONFIG: &'static str = ".ores-mw.toml";

/// Canonical repository-root rate-limit contract.
pub const ORES_RL_CONFIG: &'static str = ".ores-rl.toml";

/// Canonical repository-root LRU/cache contract.
pub const ORES_LRU_CONFIG: &'static str = ".ores-lru.toml";

/// Canonical repository-root SOPS / encrypted configuration binding.
pub const ORES_SOPS_CONFIG: &'static str = ".ores-sops.toml";

/// Canonical repository-root drag-and-drop contract binding.
pub const ORES_DND_CONFIG: &'static str = ".ores-dnd.toml";

/// Canonical repository-root WebSocket contract binding.
pub const ORES_WS_CONFIG: &'static str = ".ores-ws.toml";

/// Canonical repository-root service-worker contract binding.
pub const ORES_SW_CONFIG: &'static str = ".ores-sw.toml";

/// Canonical repository-root sidecar contract.
pub const ORES_SIDECAR_CONFIG: &'static str = ".ores-sidecar.toml";

/// Canonical repository-root Shared Auth binding.
pub const SHARED_AUTH_CONFIG: &'static str = ".shared-auth.toml";

/// Compatibility-only Shared Auth spelling. It must not coexist with the canonical file.
pub const SHARED_AUTH_COMPAT_CONFIG: &'static str = ".auth-shared.toml";

/// Runtime-TOML names currently admitted by portfolio policy.
///
/// Consumers should import this list instead of hand-maintaining another
/// spelling table.
pub const REGISTERED_RUNTIME_CONFIGS: [&'static str; 22] = [
    ORES_OTEL_CONFIG,
    ".ores-chat.toml",
    ".ores-forms.toml",
    OPTO_SYNC_CONFIG,
    ".fanwaave-cfg.toml",
    ORES_MW_CONFIG,
    ORES_RL_CONFIG,
    ORES_LRU_CONFIG,
    ORES_SOPS_CONFIG,
    ORES_DND_CONFIG,
    ORES_WS_CONFIG,
    ORES_SW_CONFIG,
    ".ores-lock.toml",
    SHARED_AUTH_CONFIG,
    SHARED_AUTH_COMPAT_CONFIG,
    ".ores-rpc.toml",
    ".ores-legal.toml",
    ".ores-wasm.toml",
    ORES_SIDECAR_CONFIG,
    ".ores-infra.toml",
    ".indiebuild.toml",
    ".canonical-cfg.toml",
];

/// A repository-root configuration identity whose canonical spelling and aliases
/// must remain consistent across CLIs.
#[derive(Debug, Clone, Copy, PartialEq, Eq)]
pub struct RootConfigIdentity {
    /// Stable concern identifier.
    pub concern: &'static str,
    /// Canonical repository-root filename.
    pub canonical: &'static str,
    /// Compatibility-only spellings accepted during migration.
    pub compatibility_aliases: &'static [&'static str],
}

/// Concern identifiers of the cross-CLI identities, in table order.
pub open spec fn identity_concerns() -> Seq<Seq<char>> {
    seq![
        "cli-flags"@,
        "ores-otel"@,
        "opto-sync"@,
        "ores-middleware"@,
        "ores-rate-limit"@,
        "ores-lru"@,
        "ores-sops"@,
        "ores-dnd"@,
        "ores-websocket"@,
        "ores-service-worker"@,
        "ores-sidecar"@,
        "shared-auth"@,
    ]
}

/// Canonical filenames of the cross-CLI identities, in table order.
pub open spec fn identity_canonicals() -> Seq<Seq<char>> {
    seq![
        CLI_FLAGS_CONFIG@,
        ORES_OTEL_CONFIG@,
        OPTO_SYNC_CONFIG@,
        ORES_MW_CONFIG@,
        ORES_RL_CONFIG@,
        ORES_LRU_CONFIG@,
        ORES_SOPS_CONFIG@,
        ORES_DND_CONFIG@,
        ORES_WS_CONFIG@,
        ORES_SW_CONFIG@,
        ORES_SIDECAR_CONFIG@,
        SHARED_AUTH_CONFIG@,
    ]
}

/// Compatibility aliases of the cross-CLI identities, in table order.
pub open spec fn identity_aliases() -> Seq<Seq<Seq<char>>> {
    let none = Seq::<Seq<char>>::empty();
    seq![none, none, none, none, none, none, none, none, none, none, none, seq![
        SHARED_AUTH_COMPAT_CONFIG@,
    ]]
}

/// Whether a table of identities is the admitted one.
pub open spec fn is_identity_table(ids: Seq<RootConfigIdentity>) -> bool {
    &&& ids.len() == 12
    &&& forall|i: int|
        0 <= i < 12 ==> {
            &&& (#[trigger] ids[i]).concern@ == identity_concerns()[i]
            &&& ids[i].canonical@ == identity_canonicals()[i]
            &&& token_views(ids[i].compatibility_aliases@) == identity_aliases()[i]
        }
}

/// Cross-CLI filename identities that currently have more than one consumer.
pub fn root_config_identities() -> (r: &'static [RootConfigIdentity])
    ensures
        is_identity_table(r@),
{
    let r: &'static [RootConfigIdentity] = &[
        RootConfigIdentity { concern: "cli-flags", canonical: CLI_FLAGS_CONFIG, compatibility_aliases: &[] },
        RootConfigIdentity { concern: "ores-otel", canonical: ORES_OTEL_CONFIG, compatibility_aliases: &[] },
        RootConfigIdentity { concern: "opto-sync", canonical: OPTO_SYNC_CONFIG, compatibility_aliases: &[] },
        RootConfigIdentity { concern: "ores-middleware", canonical: ORES_MW_CONFIG, compatibility_aliases: &[] },
        RootConfigIdentity { concern: "ores-rate-limit", canonical: ORES_RL_CONFIG, compatibility_aliases: &[] },
        RootConfigIdentity { concern: "ores-lru", canonical: ORES_LRU_CONFIG, compatibility_aliases: &[] },
        RootConfigIdentity { concern: "ores-sops", canonical: ORES_SOPS_CONFIG, compatibility_aliases: &[] },
        RootConfigIdentity { concern: "ores-dnd", canonical: ORES_DND_CONFIG, compatibility_aliases: &[] },
        RootConfigIdentity { concern: "ores-websocket", canonical: ORES_WS_CONFIG, compatibility_aliases: &[] },
        RootConfigIdentity { concern: "ores-service-worker", canonical: ORES_SW_CONFIG, compatibility_aliases: &[] },
        RootConfigIdentity { concern: "ores-sidecar", canonical: ORES_SIDECAR_CONFIG, compatibility_aliases: &[] },
        RootConfigIdentity {
            concern: "shared-auth",
            canonical: SHARED_AUTH_CONFIG,
            compatibility_aliases: &[SHARED_AUTH_COMPAT_CONFIG],
        },
    ];
    proof {
        assert(token_views(r@[0].compatibility_aliases@) =~= identity_aliases()[0]);
        assert(token_views(r@[11].compatibility_aliases@) =~= identity_aliases()[11]);
    }
    r
}

/// Return the admitted identity for a concern: the first one registered under
/// that concern.
pub fn root_config_identity(concern: &str) -> (r: Option<&'static RootConfigIdentity>)
    ensures
        r matches Some(id) ==> exists|i: int|
            0 <= i < 12 && id.concern@ == identity_concerns()[i] && id.concern@ == concern@
                && id.canonical@ == identity_canonicals()[i] && token_views(
                id.compatibility_aliases@,
            ) == identity_aliases()[i] && forall|j: int|
                0 <= j < i ==> #[trigger] identity_concerns()[j] != concern@,
        r is None ==> forall|i: int|
            0 <= i < 12 ==> #[trigger] identity_concerns()[i] != concern@,
{
    let ids: &'static [RootConfigIdentity] = root_config_identities();
    let mut i: usize = 0;
    while i < ids.len()
        invariant
            is_identity_table(ids@),
            i <= ids@.len(),
            forall|j: int| 0 <= j < i ==> #[trigger] identity_concerns()[j] != concern@,
        decreases ids@.len() - i,
    {
        if str_equals(ids[i].concern, concern) {
            proof {
                assert(ids@[i as int].concern@ == identity_concerns()[i as int]);
            }
            return Some(&ids[i]);
        }
        proof {
            assert(ids@[i as int].concern@ == identity_concerns()[i as int]);
        }
        i += 1;
    }
    None
}

/// Return whether a filename is admitted by the current runtime-TOML registry.
pub fn is_registered_runtime_config(name: &str) -> (r: bool)
    ensures
        r == token_views(REGISTERED_RUNTIME_CONFIGS@).contains(name@),
{
    let table: [&'static str; 22] = REGISTERED_RUNTIME_CONFIGS;
    let names: &[&'static str] = table.as_slice();
    let ghost views = token_views(names@);
    let mut i: usize = 0;
    while i < names.len()
        invariant
            names@ == REGISTERED_RUNTIME_CONFIGS@,
            views == token_views(names@),
            views.len() == names@.len(),
            i <= names@.len(),
            forall|j: int| 0 <= j < i ==> views[j] != name@,
        decreases names@.len() - i,
    {
        if str_equals(names[i], name) {
            proof {
                assert(views[i as int] == name@);
            }
            return true;
        }
        i += 1;
    }
    false
}

} // verus!
