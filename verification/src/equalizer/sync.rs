//! The decisions of equalizer synchronisation, one per answer the server
//! can give: what a sync pass does with the oldest queued edit, what a state
//! fetch or probe means for the recorded support, whether an edit goes to
//! the server, the queue or the device-local layer. The service performs
//! the I/O each step names.
use vstd::prelude::*;

use crate::auth::store::StoredCredentialKind;
use crate::equalizer::model::{Revision, SupportState};
use crate::equalizer::service::{endpoint_unimplemented, scope_changed, unimplemented_prefix};
use crate::error::{error_text, AppError};
use crate::hashing::{is_lower_hex, random_uuid_simple};
use crate::text::{chars_of, push_str, starts_with, string_from_chars};

verus! {

/// The scope of a device with no server configured.
pub const UNCONFIGURED_SCOPE: &'static str = "device:unconfigured";

/// Did the server say it does not implement the equalizer endpoints?
pub open spec fn is_unimplemented(e: AppError) -> bool {
    e matches AppError::Unsupported(m) && starts_with(m@, unimplemented_prefix())
}

fn owned(s: &str) -> (out: String)
    ensures
        out@ == s@,
{
    string_from_chars(&chars_of(s))
}

/// What a support probe at the start of a sync pass allows.
#[derive(Debug, Clone, PartialEq, Eq)]
pub enum ProbeStep {
    /// The server is supported: drain the queue.
    Proceed,
    /// Not supported, or unreachable: show the current snapshot.
    ShowSnapshot,
    /// Give up with this error.
    Fail(AppError),
}

/// A supported server goes on; any other verdict, or an unreachable server,
/// leaves the snapshot as it is; other errors fail the pass.
pub fn after_sync_probe(probed: Result<SupportState, AppError>) -> (r: ProbeStep)
    ensures
        r == match probed {
            Ok(SupportState::Supported) => ProbeStep::Proceed,
            Ok(_) => ProbeStep::ShowSnapshot,
            Err(AppError::Transport(m)) => ProbeStep::ShowSnapshot,
            Err(e) => ProbeStep::Fail(e),
        },
{
    match probed {
        Ok(SupportState::Supported) => ProbeStep::Proceed,
        Ok(_) => ProbeStep::ShowSnapshot,
        Err(AppError::Transport(m)) => ProbeStep::ShowSnapshot,
        Err(e) => ProbeStep::Fail(e),
    }
}

/// What a sync pass does with the oldest queued edit once the server has
/// answered it.
#[derive(Debug, Clone, PartialEq, Eq)]
pub enum DrainStep {
    /// Store the returned state, acknowledge the edit, go on.
    Acknowledge,
    /// Move the edit's group to the conflicts, with the server's code and
    /// message (and the known server revision); go on.
    Conflict { code: String, message: String },
    /// Record the failure on the edit and stop draining.
    RetryLater { error: String },
    /// The server no longer syncs equalizers: keep the synced state and the
    /// queued edits on this device, mark it unsupported, stop.
    FallBackToLocal,
    /// The server speaks a newer format: quarantine the edit's group with
    /// this message, mark the future format, stop.
    FutureFormat { message: String },
    /// Give up with this error.
    Fail(AppError),
}

/// The step for the server's answer to a pushed edit, given whether the
/// state it returned is in a format this build reads (`Ok(true)`).
pub fn after_push(pushed: Result<bool, AppError>) -> (r: DrainStep)
    ensures
        match pushed {
            Ok(true) => r == DrainStep::Acknowledge,
            Ok(false) => r matches DrainStep::FutureFormat { message } && message@
                == "the server committed the change but returned a newer equalizer format"@,
            Err(AppError::Conflict { code, message }) => r == (DrainStep::Conflict { code, message }),
            Err(AppError::Transport(m)) => r matches DrainStep::RetryLater { error } && error@
                == error_text(AppError::Transport(m)),
            Err(AppError::Unsupported(m)) => if is_unimplemented(AppError::Unsupported(m)) {
                r == DrainStep::FallBackToLocal
            } else {
                r matches DrainStep::FutureFormat { message } && message@ == error_text(
                    AppError::Unsupported(m),
                )
            },
            Err(e) => r == DrainStep::Fail(e),
        },
{
    match pushed {
        Ok(true) => DrainStep::Acknowledge,
        Ok(false) => DrainStep::FutureFormat {
            message: owned("the server committed the change but returned a newer equalizer format"),
        },
        Err(AppError::Conflict { code, message }) => DrainStep::Conflict { code, message },
        Err(AppError::Transport(m)) => {
            let e = AppError::Transport(m);
            DrainStep::RetryLater { error: e.to_string() }
        },
        Err(AppError::Unsupported(m)) => {
            let e = AppError::Unsupported(m);
            if endpoint_unimplemented(&e) {
                DrainStep::FallBackToLocal
            } else {
                DrainStep::FutureFormat { message: e.to_string() }
            }
        },
        Err(e) => DrainStep::Fail(e),
    }
}

/// What a fetch of the server's state means.
#[derive(Debug, Clone, PartialEq, Eq)]
pub enum FetchVerdict {
    /// A state this build reads: store it as the clean mirror (supported).
    Replace,
    /// Not modified since the known revision: the server is supported.
    Unchanged,
    /// A state in a newer format, or a refusal for format: quarantine.
    FutureFormat,
    /// The server does not implement equalizer sync: keep the synced state
    /// on this device and mark it unsupported.
    FallBackToLocal,
    /// Give up with this error.
    Fail(AppError),
}

/// The verdict on a state fetch, given whether a state came back and
/// whether its format is readable (`Ok(Some(true))`).
pub fn after_fetch(fetched: Result<Option<bool>, AppError>) -> (r: FetchVerdict)
    ensures
        r == match fetched {
            Ok(Some(true)) => FetchVerdict::Replace,
            Ok(Some(false)) => FetchVerdict::FutureFormat,
            Ok(None) => FetchVerdict::Unchanged,
            Err(e) => if is_unimplemented(e) {
                FetchVerdict::FallBackToLocal
            } else if e is Unsupported {
                FetchVerdict::FutureFormat
            } else {
                FetchVerdict::Fail(e)
            },
        },
{
    match fetched {
        Ok(Some(true)) => FetchVerdict::Replace,
        Ok(Some(false)) => FetchVerdict::FutureFormat,
        Ok(None) => FetchVerdict::Unchanged,
        Err(e) => {
            if endpoint_unimplemented(&e) {
                FetchVerdict::FallBackToLocal
            } else {
                match e {
                    AppError::Unsupported(_) => FetchVerdict::FutureFormat,
                    _ => FetchVerdict::Fail(e),
                }
            }
        },
    }
}

/// The support a probe reports for a fetch verdict (none for a failure).
pub fn probed_support(v: &FetchVerdict) -> (r: Option<SupportState>)
    ensures
        r == match *v {
            FetchVerdict::Replace => Some(SupportState::Supported),
            FetchVerdict::Unchanged => Some(SupportState::Supported),
            FetchVerdict::FutureFormat => Some(SupportState::FutureFormat),
            FetchVerdict::FallBackToLocal => Some(SupportState::Unsupported),
            FetchVerdict::Fail(_) => None,
        },
{
    match v {
        FetchVerdict::Replace => Some(SupportState::Supported),
        FetchVerdict::Unchanged => Some(SupportState::Supported),
        FetchVerdict::FutureFormat => Some(SupportState::FutureFormat),
        FetchVerdict::FallBackToLocal => Some(SupportState::Unsupported),
        FetchVerdict::Fail(_) => None,
    }
}

/// A sync pass refreshes the clean mirror only once the queue is empty: it
/// never pulls over an optimistic overlay.
pub fn refresh_allowed(pending: i64) -> (r: bool)
    ensures
        r == (pending == 0),
{
    pending == 0
}

/// The revision a refresh sends as known: the stored one, once a complete
/// snapshot has been stored.
pub fn refresh_basis(has_complete_snapshot: bool, state_revision: Revision) -> (r: Option<Revision>)
    ensures
        r == if has_complete_snapshot {
            Some(state_revision)
        } else {
            None
        },
{
    if has_complete_snapshot {
        Some(state_revision)
    } else {
        None
    }
}

/// Before an edit: a newer server format refuses it; an unknown support
/// asks for a probe first (`true`, when signed in); otherwise go on.
pub fn edit_gate(support: SupportState) -> (r: Result<bool, AppError>)
    ensures
        support == SupportState::FutureFormat ==> (r matches Err(AppError::Unsupported(m)) && m@
            == "this server uses a newer equalizer format; update Octave before editing"@),
        support == SupportState::Unknown ==> r == Ok::<bool, AppError>(true),
        (support == SupportState::Supported || support == SupportState::Unsupported) ==> r == Ok::<
            bool,
            AppError,
        >(false),
{
    match support {
        SupportState::FutureFormat => Err(
            AppError::Unsupported(
                owned("this server uses a newer equalizer format; update Octave before editing"),
            ),
        ),
        SupportState::Unknown => Ok(true),
        SupportState::Supported | SupportState::Unsupported => Ok(false),
    }
}

/// A probe before an edit only stops it on an error other than an
/// unreachable server.
pub fn after_edit_probe(probed: Result<SupportState, AppError>) -> (r: Result<(), AppError>)
    ensures
        r == match probed {
            Ok(_) => Ok::<(), AppError>(()),
            Err(AppError::Transport(m)) => Ok(()),
            Err(e) => Err(e),
        },
{
    match probed {
        Ok(_) => Ok(()),
        Err(AppError::Transport(m)) => Ok(()),
        Err(e) => Err(e),
    }
}

/// Whether an edit goes to the device-local layer: with no server or
/// session, with a secret-key session, or when the server does not sync
/// equalizers.
pub fn uses_local_layer(support: SupportState, session: Option<StoredCredentialKind>) -> (r: bool)
    ensures
        r == match session {
            None => true,
            Some(StoredCredentialKind::SecretKey) => true,
            Some(StoredCredentialKind::Bearer) => support == SupportState::Unsupported,
        },
{
    match session {
        None => true,
        Some(StoredCredentialKind::SecretKey) => true,
        Some(StoredCredentialKind::Bearer) => match support {
            SupportState::Unsupported => true,
            _ => false,
        },
    }
}

/// Whether an edit is pushed now: only with nothing queued before it and a
/// bearer session (else it waits in the queue behind older edits).
pub fn push_now(pending: i64, bearer: bool) -> (r: bool)
    ensures
        r == (pending <= 0 && bearer),
{
    pending <= 0 && bearer
}

/// What an edit pushed straight to the server leads to.
#[derive(Debug, Clone, PartialEq, Eq)]
pub enum SyncedEditStep {
    /// Mark the server supported, store the returned state, report it.
    Accept,
    /// Queue the edit for the next sync pass.
    Enqueue,
    /// Write the edit to the device-local layer.
    ApplyLocally,
    /// The server does not sync equalizers: keep the synced state on this
    /// device, mark it unsupported, and write the edit (retargeted) locally.
    FallBackToLocal,
    /// Mark the future format and fail with this error.
    FutureFormat(AppError),
    /// Fail with this error.
    Fail(AppError),
}

/// The step for the server's answer to an edit pushed at once, given
/// whether the returned state is readable (`Ok(true)`) and, for a failure
/// to reach the server, the recorded support and whether a complete
/// snapshot is stored.
pub fn after_synced_push(
    pushed: Result<bool, AppError>,
    support: SupportState,
    has_complete_snapshot: bool,
) -> (r: SyncedEditStep)
    ensures
        match pushed {
            Ok(true) => r == SyncedEditStep::Accept,
            Ok(false) => r matches SyncedEditStep::FutureFormat(AppError::Unsupported(m)) && m@
                == "response_format: the server committed the change but returned a newer equalizer format"@,
            Err(e) => if is_unimplemented(e) {
                r == SyncedEditStep::FallBackToLocal
            } else if e is Unsupported {
                r == SyncedEditStep::FutureFormat(e)
            } else if e is Transport || e is AuthNotConfigured {
                r == if support == SupportState::Unknown || !has_complete_snapshot {
                    SyncedEditStep::ApplyLocally
                } else {
                    SyncedEditStep::Enqueue
                }
            } else {
                r == SyncedEditStep::Fail(e)
            },
        },
{
    match pushed {
        Ok(true) => SyncedEditStep::Accept,
        Ok(false) => SyncedEditStep::FutureFormat(
            AppError::Unsupported(
                owned(
                    "response_format: the server committed the change but returned a newer equalizer format",
                ),
            ),
        ),
        Err(e) => {
            if endpoint_unimplemented(&e) {
                return SyncedEditStep::FallBackToLocal;
            }
            match e {
                AppError::Unsupported(_) => SyncedEditStep::FutureFormat(e),
                AppError::Transport(_) | AppError::AuthNotConfigured(_) => {
                    let unknown = match support {
                        SupportState::Unknown => true,
                        _ => false,
                    };
                    if unknown || !has_complete_snapshot {
                        SyncedEditStep::ApplyLocally
                    } else {
                        SyncedEditStep::Enqueue
                    }
                },
                _ => SyncedEditStep::Fail(e),
            }
        },
    }
}

/// Whether the signed-in session may sync for `expected` scope: `current`
/// is the scope computed now with the session's kind (`None` when no server
/// is configured). A scope that moved refuses; only a bearer session syncs.
pub fn bearer_for_scope(expected: &str, current: Option<(&str, Option<StoredCredentialKind>)>) -> (r:
    Result<bool, AppError>)
    ensures
        match current {
            None => if expected@ == UNCONFIGURED_SCOPE@ {
                r == Ok::<bool, AppError>(false)
            } else {
                r matches Err(AppError::Conflict { code, .. }) && code@ == "scope_changed"@
            },
            Some((scope, kind)) => if scope@ != expected@ {
                r matches Err(AppError::Conflict { code, .. }) && code@ == "scope_changed"@
            } else {
                r == Ok::<bool, AppError>(kind == Some(StoredCredentialKind::Bearer))
            },
        },
{
    match current {
        None => {
            if owned(expected) == owned(UNCONFIGURED_SCOPE) {
                Ok(false)
            } else {
                Err(scope_changed())
            }
        },
        Some((scope, kind)) => {
            if owned(scope) != owned(expected) {
                return Err(scope_changed());
            }
            match kind {
                Some(StoredCredentialKind::Bearer) => Ok(true),
                _ => Ok(false),
            }
        },
    }
}

/// The secret that keys endpoint hashes: the stored one, else a new one of
/// two random UUIDs (64 lowercase hex digits), which is to be stored
/// (`true`).
pub fn device_secret_text(stored: Option<String>) -> (r: (String, bool))
    ensures
        match stored {
            Some(s) => r == (s, false),
            None => r.1 && r.0@.len() == 64 && forall|i: int|
                0 <= i < 64 ==> is_lower_hex(#[trigger] r.0@[i]),
        },
{
    match stored {
        Some(s) => (s, false),
        None => {
            let a = random_uuid_simple();
            let b = random_uuid_simple();
            let mut v = chars_of(a.as_str());
            push_str(&mut v, b.as_str());
            assert forall|i: int| 0 <= i < 64 implies is_lower_hex(#[trigger] v@[i]) by {
                if i >= 32 {
                    assert(v@[i] == b@[i - 32]);
                }
            }
            (string_from_chars(&v), true)
        },
    }
}

} // verus!
