//! The session view handed to the frontend, the credential used for
//! outbound calls, the `Authorization` header it becomes, and the transport
//! health seeded from the transport that served an auth call.
use vstd::prelude::*;

use crate::auth::store::{StoredCredential, StoredCredentialKind};
use crate::error::AppError;
use crate::text::{chars_of, push_str, string_from_chars};

verus! {

/// The active session without the secret; `T` is the permission tier.
#[derive(Debug, Clone)]
pub struct AuthSession<T> {
    pub kind: StoredCredentialKind,
    pub user_id: Option<String>,
    pub username: Option<String>,
    pub tier: T,
    pub expires_at: Option<String>,
}

/// The session view of a stored credential; a credential without a tier
/// counts as `default_tier`.
pub fn session_of<T: Copy>(c: &StoredCredential<T>, default_tier: T) -> (r: AuthSession<T>)
    ensures
        r.kind == c.kind,
        r.user_id == c.user_id,
        r.username == c.username,
        r.tier == match c.tier {
            Some(t) => t,
            None => default_tier,
        },
        r.expires_at == c.expires_at,
{
    AuthSession {
        kind: c.kind,
        user_id: match &c.user_id {
            Some(s) => Some(s.clone()),
            None => None,
        },
        username: match &c.username {
            Some(s) => Some(s.clone()),
            None => None,
        },
        tier: match c.tier {
            Some(t) => t,
            None => default_tier,
        },
        expires_at: match &c.expires_at {
            Some(s) => Some(s.clone()),
            None => None,
        },
    }
}

/// A credential for an outbound call.
#[derive(Debug, Clone, PartialEq, Eq)]
pub enum Credential {
    SecretKey(String),
    Bearer(String),
}

/// The credential of the active session; none configured is an
/// `AuthNotConfigured` error.
pub fn credential_of<T>(stored: Option<&StoredCredential<T>>) -> (r: Result<Credential, AppError>)
    ensures
        match stored {
            None => r matches Err(AppError::AuthNotConfigured(m)) && m@ == "no active session"@,
            Some(c) => match c.kind {
                StoredCredentialKind::SecretKey => r == Ok::<Credential, AppError>(
                    Credential::SecretKey(c.secret),
                ),
                StoredCredentialKind::Bearer => r == Ok::<Credential, AppError>(
                    Credential::Bearer(c.secret),
                ),
            },
        },
{
    match stored {
        None => {
            let m = "no active session".to_owned();
            proof {
                reveal_strlit("no active session");
            }
            Err(AppError::AuthNotConfigured(m))
        },
        Some(c) => match c.kind {
            StoredCredentialKind::SecretKey => Ok(Credential::SecretKey(c.secret.clone())),
            StoredCredentialKind::Bearer => Ok(Credential::Bearer(c.secret.clone())),
        },
    }
}

/// The `Authorization` header value for a credential.
pub open spec fn auth_header_text(cred: Credential) -> Seq<char> {
    match cred {
        Credential::SecretKey(k) => "SecretKey "@ + k@,
        Credential::Bearer(t) => "Bearer "@ + t@,
    }
}

pub fn auth_header(cred: &Credential) -> (r: String)
    ensures
        r@ == auth_header_text(*cred),
{
    let (scheme, value) = match cred {
        Credential::SecretKey(k) => ("SecretKey ", k),
        Credential::Bearer(t) => ("Bearer ", t),
    };
    let mut v = chars_of(scheme);
    push_str(&mut v, value.as_str());
    string_from_chars(&v)
}

/// Which transport serviced a call.
#[derive(Debug, Clone, Copy, PartialEq, Eq, Structural)]
pub enum TransportUsed {
    Grpc,
    Rest,
}

/// Last-known reachability of each transport.
#[derive(Debug, Clone, Copy, PartialEq, Eq, Structural)]
pub struct TransportHealth {
    pub rest: bool,
    pub grpc: bool,
}

impl TransportHealth {
    /// Reachable over either transport.
    pub fn online(&self) -> (r: bool)
        ensures
            r == (self.rest || self.grpc),
    {
        self.rest || self.grpc
    }
}

/// Health seeded from the transport that just serviced an auth call: via
/// gRPC both are taken as up (same host); via REST, REST is up and gRPC is
/// down (REST is only reached after a gRPC attempt failed).
pub fn seed_health(used: TransportUsed) -> (r: TransportHealth)
    ensures
        r == seed_health_spec(used),
{
    match used {
        TransportUsed::Grpc => TransportHealth { rest: true, grpc: true },
        TransportUsed::Rest => TransportHealth { rest: true, grpc: false },
    }
}

// ---------------------------------------------------------------------------
// Credential lifecycle
// ---------------------------------------------------------------------------

/// The server the client is configured for.
#[derive(Debug, Clone)]
pub struct ServerConfig {
    pub rest_url: String,
    pub grpc_url: String,
    /// The gRPC URL is a user override rather than derived from REST.
    pub grpc_explicit: bool,
}

/// What a successful password login returns.
#[derive(Debug, Clone)]
pub struct LoginOutcome<T> {
    pub token: String,
    pub user_id: String,
    pub tier: T,
    pub expires_at: String,
    pub transport: TransportUsed,
}

/// What the server says about a credential.
#[derive(Debug, Clone)]
pub struct WhoAmI<T> {
    pub user_id: String,
    pub username: String,
    pub tier: T,
    pub transport: TransportUsed,
}

fn some_clone(s: &String) -> (r: Option<String>)
    ensures
        r == Some(*s),
{
    Some(s.clone())
}

/// The credential persisted after a password login: the bearer token, the
/// server URLs (so a restart reconnects) and the identity.
pub fn login_credential<T: Copy>(cfg: &ServerConfig, username: &str, outcome: &LoginOutcome<T>) -> (r:
    StoredCredential<T>)
    ensures
        r.kind == StoredCredentialKind::Bearer,
        r.secret == outcome.token,
        r.rest_url == Some(cfg.rest_url),
        r.grpc_url == Some(cfg.grpc_url),
        r.grpc_explicit == Some(cfg.grpc_explicit),
        r.user_id == Some(outcome.user_id),
        r.username matches Some(u) && u@ == username@,
        r.tier == Some(outcome.tier),
        r.expires_at == Some(outcome.expires_at),
{
    StoredCredential {
        kind: StoredCredentialKind::Bearer,
        secret: outcome.token.clone(),
        rest_url: some_clone(&cfg.rest_url),
        grpc_url: some_clone(&cfg.grpc_url),
        grpc_explicit: Some(cfg.grpc_explicit),
        user_id: some_clone(&outcome.user_id),
        username: Some(username.to_owned()),
        tier: Some(outcome.tier),
        expires_at: some_clone(&outcome.expires_at),
    }
}

/// The credential persisted for a verified secret key: no identity, the
/// tier the server reported.
pub fn secret_key_credential<T: Copy>(cfg: &ServerConfig, key: &str, tier: T) -> (r: StoredCredential<
    T,
>)
    ensures
        r.kind == StoredCredentialKind::SecretKey,
        r.secret@ == key@,
        r.rest_url == Some(cfg.rest_url),
        r.grpc_url == Some(cfg.grpc_url),
        r.grpc_explicit == Some(cfg.grpc_explicit),
        r.user_id is None,
        r.username is None,
        r.tier == Some(tier),
        r.expires_at is None,
{
    StoredCredential {
        kind: StoredCredentialKind::SecretKey,
        secret: key.to_owned(),
        rest_url: some_clone(&cfg.rest_url),
        grpc_url: some_clone(&cfg.grpc_url),
        grpc_explicit: Some(cfg.grpc_explicit),
        user_id: None,
        username: None,
        tier: Some(tier),
        expires_at: None,
    }
}

/// Point a stored credential at a (possibly different) server.
pub fn retarget<T>(cred: &mut StoredCredential<T>, cfg: &ServerConfig)
    ensures
        final(cred).kind == old(cred).kind,
        final(cred).secret == old(cred).secret,
        final(cred).rest_url == Some(cfg.rest_url),
        final(cred).grpc_url == Some(cfg.grpc_url),
        final(cred).grpc_explicit == Some(cfg.grpc_explicit),
        final(cred).user_id == old(cred).user_id,
        final(cred).username == old(cred).username,
        final(cred).tier == old(cred).tier,
        final(cred).expires_at == old(cred).expires_at,
{
    cred.rest_url = some_clone(&cfg.rest_url);
    cred.grpc_url = some_clone(&cfg.grpc_url);
    cred.grpc_explicit = Some(cfg.grpc_explicit);
}

/// Take what the server reports: its tier, and the user id and name when it
/// names them.
pub fn apply_whoami<T: Copy>(cred: &mut StoredCredential<T>, who: &WhoAmI<T>)
    ensures
        final(cred).kind == old(cred).kind,
        final(cred).secret == old(cred).secret,
        final(cred).rest_url == old(cred).rest_url,
        final(cred).grpc_url == old(cred).grpc_url,
        final(cred).grpc_explicit == old(cred).grpc_explicit,
        final(cred).tier == Some(who.tier),
        final(cred).user_id == if who.user_id@.len() == 0 {
            old(cred).user_id
        } else {
            Some(who.user_id)
        },
        final(cred).username == if who.username@.len() == 0 {
            old(cred).username
        } else {
            Some(who.username)
        },
        final(cred).expires_at == old(cred).expires_at,
{
    cred.tier = Some(who.tier);
    if !who.user_id.as_str().is_empty() {
        cred.user_id = some_clone(&who.user_id);
    }
    if !who.username.as_str().is_empty() {
        cred.username = some_clone(&who.username);
    }
}

/// The session reported after a `WhoAmI`: the stored kind (bearer when
/// none is stored), the identity the server names (none when empty), its
/// tier, and the stored expiry.
pub fn whoami_session<T: Copy>(stored: Option<&StoredCredential<T>>, who: &WhoAmI<T>) -> (r:
    AuthSession<T>)
    ensures
        r.kind == match stored {
            Some(c) => c.kind,
            None => StoredCredentialKind::Bearer,
        },
        r.user_id == if who.user_id@.len() == 0 {
            None
        } else {
            Some(who.user_id)
        },
        r.username == if who.username@.len() == 0 {
            None
        } else {
            Some(who.username)
        },
        r.tier == who.tier,
        r.expires_at == match stored {
            Some(c) => c.expires_at,
            None => None,
        },
{
    AuthSession {
        kind: match stored {
            Some(c) => c.kind,
            None => StoredCredentialKind::Bearer,
        },
        user_id: if who.user_id.as_str().is_empty() {
            None
        } else {
            some_clone(&who.user_id)
        },
        username: if who.username.as_str().is_empty() {
            None
        } else {
            some_clone(&who.username)
        },
        tier: who.tier,
        expires_at: match stored {
            Some(c) => match &c.expires_at {
                Some(e) => some_clone(e),
                None => None,
            },
            None => None,
        },
    }
}

/// What to do with a stored credential after asking a new server about it.
pub enum Revalidation<T> {
    /// Accepted: keep (and save) the updated credential, with this session
    /// and the health seeded from the transport that answered.
    Accept { cred: StoredCredential<T>, session: AuthSession<T>, health: TransportHealth },
    /// Rejected (401/403): wipe the credential.
    Reject,
    /// The server is unreachable: keep (and save) the credential with its
    /// new URLs, unknown health, and the stored (or default) tier.
    KeepOffline { cred: StoredCredential<T>, session: AuthSession<T> },
}

/// The credential `c`, session and health kept when the server accepts
/// `cred` with the answer `who`: the server's tier and, when it names them,
/// its user id and name; everything else of `cred` (its URLs for the new
/// server among them) unchanged; the session is the updated credential's.
pub open spec fn accepted<T>(
    c: StoredCredential<T>,
    session: AuthSession<T>,
    health: TransportHealth,
    cred: StoredCredential<T>,
    who: WhoAmI<T>,
) -> bool {
    &&& c.kind == cred.kind
    &&& c.secret == cred.secret
    &&& c.rest_url == cred.rest_url
    &&& c.grpc_url == cred.grpc_url
    &&& c.grpc_explicit == cred.grpc_explicit
    &&& c.tier == Some(who.tier)
    &&& c.user_id == if who.user_id@.len() == 0 {
        cred.user_id
    } else {
        Some(who.user_id)
    }
    &&& c.username == if who.username@.len() == 0 {
        cred.username
    } else {
        Some(who.username)
    }
    &&& c.expires_at == cred.expires_at
    &&& session.kind == c.kind
    &&& session.user_id == c.user_id
    &&& session.username == c.username
    &&& session.tier == who.tier
    &&& session.expires_at == c.expires_at
    &&& health == seed_health_spec(who.transport)
}

/// Decide on a stored credential already pointed at the new server, given
/// the server's answer.
pub fn revalidate<T: Copy>(cred: StoredCredential<T>, answer: Result<WhoAmI<T>, AppError>, default_tier: T) -> (r:
    Revalidation<T>)
    ensures
        match answer {
            Ok(who) => r matches Revalidation::Accept { cred: c, session, health } && accepted(
                c,
                session,
                health,
                cred,
                who,
            ),
            Err(AppError::Unauthenticated(_)) | Err(AppError::Forbidden(_)) => r is Reject,
            Err(_) => r matches Revalidation::KeepOffline { cred: c, session } && c == cred
                && session.kind == cred.kind && session.user_id == cred.user_id && session.username
                == cred.username && session.expires_at == cred.expires_at && session.tier
                == match cred.tier {
                Some(t) => t,
                None => default_tier,
            },
        },
{
    match answer {
        Ok(who) => {
            let mut c = cred;
            apply_whoami(&mut c, &who);
            let session = AuthSession {
                kind: c.kind,
                user_id: match &c.user_id {
                    Some(u) => some_clone(u),
                    None => None,
                },
                username: match &c.username {
                    Some(u) => some_clone(u),
                    None => None,
                },
                tier: who.tier,
                expires_at: match &c.expires_at {
                    Some(e) => some_clone(e),
                    None => None,
                },
            };
            Revalidation::Accept { cred: c, session, health: seed_health(who.transport) }
        },
        Err(AppError::Unauthenticated(_)) | Err(AppError::Forbidden(_)) => Revalidation::Reject,
        Err(_) => {
            let session = session_of(&cred, default_tier);
            Revalidation::KeepOffline { cred, session }
        },
    }
}

pub open spec fn seed_health_spec(used: TransportUsed) -> TransportHealth {
    TransportHealth { rest: true, grpc: used == TransportUsed::Grpc }
}

/// The gRPC URL a restored session keeps: only an explicit, non-empty
/// override; otherwise it is derived again from the REST URL.
pub open spec fn kept_grpc<T>(c: StoredCredential<T>) -> Option<Seq<char>> {
    if c.grpc_explicit == Some(true) && c.grpc_url is Some && c.grpc_url->0@.len() > 0 {
        Some(c.grpc_url->0@)
    } else {
        None
    }
}

/// The server a persisted credential restores a session to, or `None` when
/// it does not restore: only a bearer credential with a non-empty REST URL
/// is brought back on start.
pub open spec fn restore_spec<T>(c: StoredCredential<T>) -> Option<(Seq<char>, Option<Seq<char>>)> {
    if c.kind == StoredCredentialKind::Bearer && c.rest_url is Some && c.rest_url->0@.len() > 0 {
        Some((c.rest_url->0@, kept_grpc(c)))
    } else {
        None
    }
}

/// The REST URL and explicit gRPC override to rebuild the server from, when
/// the stored credential restores a session.
pub fn restore_endpoint<T>(c: &StoredCredential<T>) -> (r: Option<(String, Option<String>)>)
    ensures
        match r {
            Some((rest, grpc)) => restore_spec(*c) == Some((rest@, match grpc {
                Some(g) => Some(g@),
                None => None::<Seq<char>>,
            })),
            None => restore_spec(*c) is None,
        },
{
    match c.kind {
        StoredCredentialKind::Bearer => {},
        StoredCredentialKind::SecretKey => {
            return None;
        },
    }
    let rest = match &c.rest_url {
        Some(u) => {
            if u.unicode_len() == 0 {
                return None;
            }
            u.clone()
        },
        None => {
            return None;
        },
    };
    let explicit = match c.grpc_explicit {
        Some(b) => b,
        None => false,
    };
    let grpc = match &c.grpc_url {
        Some(g) => {
            if explicit && g.unicode_len() > 0 {
                Some(g.clone())
            } else {
                None
            }
        },
        None => None,
    };
    Some((rest, grpc))
}

} // verus!
