//! The account a game is launched with.
use vstd::prelude::*;

use crate::text::{str_is_blank, str_trim, trim_spec};

verus! {

/// The public client id used when no other is configured.
pub const AZURE_CLIENT_ID_FALLBACK: &'static str = "00000000402B5328";

/// How the player signs in.
#[derive(Debug, Clone, Copy, PartialEq, Eq, Structural)]
pub enum AccountMode {
    Offline,
    Microsoft,
}

/// The identity handed to the game at launch.
#[derive(Debug, Clone)]
pub struct LaunchAccountProfile {
    pub mode: AccountMode,
    pub username: String,
    pub uuid: String,
    pub access_token: String,
    pub xuid: String,
    pub user_type: String,
    pub client_id: String,
}

pub open spec fn nil_uuid() -> Seq<char> {
    "00000000-0000-0000-0000-000000000000"@
}

pub open spec fn is_blank(s: Seq<char>) -> bool {
    trim_spec(s).len() == 0
}

/// `value`, or `fallback` where `value` is blank.
pub open spec fn or_default(value: Seq<char>, fallback: Seq<char>) -> Seq<char> {
    if is_blank(value) {
        fallback
    } else {
        value
    }
}

/// `legacy` for offline accounts, `msa` for Microsoft ones.
pub open spec fn default_user_type(mode: AccountMode) -> Seq<char> {
    match mode {
        AccountMode::Offline => "legacy"@,
        AccountMode::Microsoft => "msa"@,
    }
}

/// The profile with each blank field replaced by its default.
pub open spec fn sanitized_profile(p: LaunchAccountProfile, q: LaunchAccountProfile) -> bool {
    &&& q.mode == p.mode
    &&& q.username@ == or_default(p.username@, "Player"@)
    &&& q.uuid@ == or_default(p.uuid@, nil_uuid())
    &&& q.access_token@ == or_default(p.access_token@, "offline_access_token"@)
    &&& q.xuid@ == or_default(p.xuid@, "0"@)
    &&& q.user_type@ == or_default(p.user_type@, default_user_type(p.mode))
    &&& q.client_id@ == or_default(p.client_id@, AZURE_CLIENT_ID_FALLBACK@)
}

fn or_default_string(value: String, fallback: &str) -> (r: String)
    ensures
        r@ == or_default(value@, fallback@),
{
    if str_is_blank(value.as_str()) {
        String::from_str(fallback)
    } else {
        value
    }
}

impl LaunchAccountProfile {
    /// An offline profile for `username` (trimmed), with the placeholder
    /// identity offline play uses.
    pub fn offline(username: &str) -> (r: LaunchAccountProfile)
        ensures
            r.mode == AccountMode::Offline,
            r.username@ == trim_spec(username@),
            r.uuid@ == nil_uuid(),
            r.access_token@ == "offline_access_token"@,
            r.xuid@ == "0"@,
            r.user_type@ == "legacy"@,
            r.client_id@ == AZURE_CLIENT_ID_FALLBACK@,
    {
        LaunchAccountProfile {
            mode: AccountMode::Offline,
            username: str_trim(username),
            uuid: String::from_str("00000000-0000-0000-0000-000000000000"),
            access_token: String::from_str("offline_access_token"),
            xuid: String::from_str("0"),
            user_type: String::from_str("legacy"),
            client_id: String::from_str(AZURE_CLIENT_ID_FALLBACK),
        }
    }

    /// Fills every blank field with its default; other fields are kept as
    /// they are.
    pub fn sanitized(self) -> (r: LaunchAccountProfile)
        ensures
            sanitized_profile(self, r),
    {
        let mode = self.mode;
        let user_type_default = match mode {
            AccountMode::Offline => "legacy",
            AccountMode::Microsoft => "msa",
        };
        LaunchAccountProfile {
            mode,
            username: or_default_string(self.username, "Player"),
            uuid: or_default_string(self.uuid, "00000000-0000-0000-0000-000000000000"),
            access_token: or_default_string(self.access_token, "offline_access_token"),
            xuid: or_default_string(self.xuid, "0"),
            user_type: or_default_string(self.user_type, user_type_default),
            client_id: or_default_string(self.client_id, AZURE_CLIENT_ID_FALLBACK),
        }
    }
}

/// The default profile: offline, as `Player`, with the placeholder
/// credentials.
pub open spec fn is_default_profile(r: LaunchAccountProfile) -> bool {
    &&& r.mode == AccountMode::Offline
    &&& r.username@ == "Player"@
    &&& r.uuid@ == nil_uuid()
    &&& r.access_token@ == "offline_access_token"@
    &&& r.xuid@ == "0"@
    &&& r.user_type@ == "legacy"@
    &&& r.client_id@ == AZURE_CLIENT_ID_FALLBACK@
}

impl Default for LaunchAccountProfile {
    /// The offline profile of `Player`.
    fn default() -> (r: LaunchAccountProfile)
        ensures
            is_default_profile(r),
    {
        proof {
            reveal_strlit("Player");
            assert(trim_spec("Player"@) == "Player"@) by {
                crate::text::lemma_trim_no_ws("Player"@);
            }
        }
        LaunchAccountProfile::offline("Player")
    }
}

/// Sanitizing leaves no field blank, and sanitizing twice changes nothing
/// more than sanitizing once.
pub proof fn sanitized_is_idempotent(p: LaunchAccountProfile, q: LaunchAccountProfile, r: LaunchAccountProfile)
    requires
        sanitized_profile(p, q),
        sanitized_profile(q, r),
    ensures
        !is_blank(q.username@),
        !is_blank(q.uuid@),
        !is_blank(q.access_token@),
        !is_blank(q.xuid@),
        !is_blank(q.user_type@),
        !is_blank(q.client_id@),
        r.mode == q.mode,
        r.username@ == q.username@,
        r.uuid@ == q.uuid@,
        r.access_token@ == q.access_token@,
        r.xuid@ == q.xuid@,
        r.user_type@ == q.user_type@,
        r.client_id@ == q.client_id@,
{
    reveal_strlit("Player");
    reveal_strlit("00000000-0000-0000-0000-000000000000");
    reveal_strlit("offline_access_token");
    reveal_strlit("0");
    reveal_strlit("legacy");
    reveal_strlit("msa");
    reveal_strlit("00000000402B5328");
    crate::text::lemma_trim_no_ws("Player"@);
    crate::text::lemma_trim_no_ws(nil_uuid());
    crate::text::lemma_trim_no_ws("offline_access_token"@);
    crate::text::lemma_trim_no_ws("0"@);
    crate::text::lemma_trim_no_ws("legacy"@);
    crate::text::lemma_trim_no_ws("msa"@);
    crate::text::lemma_trim_no_ws(AZURE_CLIENT_ID_FALLBACK@);
}

/// Links and guidance shown on the account screen.
#[derive(Debug, Clone)]
pub struct AuthResearchInfo {
    pub official_version_manifest: &'static str,
    pub official_libraries_base: &'static str,
    pub official_assets_base: &'static str,
    pub official_client_jar_hint: &'static str,
    pub oauth_guidance: &'static str,
    pub fallback_public_client_id: &'static str,
}

impl Default for AuthResearchInfo {
    fn default() -> (r: AuthResearchInfo)
        ensures
            r.official_version_manifest@
                == "https://piston-meta.mojang.com/mc/game/version_manifest_v2.json"@,
            r.official_libraries_base@ == "https://libraries.minecraft.net"@,
            r.official_assets_base@ == "https://resources.download.minecraft.net"@,
            r.official_client_jar_hint@
                == "El campo downloads.client.url de cada version JSON apunta al JAR oficial firmado por Mojang."@,
            r.oauth_guidance@
                == "Para launcher premium en producción debes registrar tu propia app de Azure y usar PKCE. Un client_id público de terceros puede fallar, cambiar sin aviso o violar TOS."@,
            r.fallback_public_client_id@ == AZURE_CLIENT_ID_FALLBACK@,
    {
        AuthResearchInfo {
            official_version_manifest: "https://piston-meta.mojang.com/mc/game/version_manifest_v2.json",
            official_libraries_base: "https://libraries.minecraft.net",
            official_assets_base: "https://resources.download.minecraft.net",
            official_client_jar_hint: "El campo downloads.client.url de cada version JSON apunta al JAR oficial firmado por Mojang.",
            oauth_guidance: "Para launcher premium en producción debes registrar tu propia app de Azure y usar PKCE. Un client_id público de terceros puede fallar, cambiar sin aviso o violar TOS.",
            fallback_public_client_id: AZURE_CLIENT_ID_FALLBACK,
        }
    }
}

} // verus!
