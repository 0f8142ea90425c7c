//! Decisions of the equalizer service that need no I/O: when the server's
//! support must be re-probed, the account/server scope key, ids and names
//! for profiles promoted from the local layer, canonical rule inputs, the
//! keyed hash that stands for a native endpoint id, the guards of each
//! mutation (per-device limits, references to a deleted profile, promotion
//! gates, the selected output for an exact binding) and the response
//! reported for a change applied without the server.
use vstd::prelude::*;
use vstd::string::StringSliceAdditionalSpecFns;

use crate::auth::manager::AuthSession;
use crate::auth::store::StoredCredentialKind;
use crate::equalizer::model::{
    normalize_hardware_id, normalize_matcher, normalized_hardware_id, normalized_matcher,
    AudioOutput, BindingStability, EqualizerDeviceRule, EqualizerDeviceRuleInput,
    EqualizerMutationResponse, EqualizerProfile, EqualizerSnapshot, EqualizerState,
    EqualizerValidationError, ExactBinding, ProfileLayer, ProfileTarget,
    RuleAction, MAX_PROFILES, MAX_RULES,
    PortableDeviceSelector, Revision, SupportState, EQ_NORMALIZATION_VERSION,
    EQ_PROFILE_FORMAT_VERSION, EQ_STATE_FORMAT_VERSION,
};
use crate::equalizer::naming::{
    name_keys, name_keys_of, pick_promotion_name, promotion_name_pick, random_promotion_name,
    random_promotion_name_exec,
};
use crate::equalizer::ops::{
    copy_action, find_profile, find_rule, first_profile, first_rule, has_profile, has_rule,
    lemma_first_profile, lemma_first_rule, lowest_priority_below, min_priority, new_rule_priority,
    rule_of_input, rule_to_overlay,
};
use crate::equalizer::repo::{name_based_bytes, name_based_id};
use crate::error::AppError;
use crate::hashing::{
    hmac_sha256, hmac_sha256_digest, random_uuid_simple, sha256, sha256_digest, uuid_text,
};
use crate::text::{
    bytes_of, chars_of, hex_lower_bytes, hex_lower_bytes_exec, push_str, starts_with,
    starts_with_exec, string_from_chars, trim, trim_ws,
};

verus! {

/// Prefix of the message with which the server reports an endpoint it does
/// not implement.
pub open spec fn unimplemented_prefix() -> Seq<char> {
    "endpoint_unimplemented:"@
}

/// Did the server answer "endpoint not implemented"?
pub fn endpoint_unimplemented(error: &AppError) -> (r: bool)
    ensures
        r == (error matches AppError::Unsupported(m) && starts_with(m@, unimplemented_prefix())),
{
    match error {
        AppError::Unsupported(m) => starts_with_exec(&chars_of(m.as_str()), "endpoint_unimplemented:"),
        _ => false,
    }
}

/// Every state but `Supported` is probed again: unknown, unsupported and a
/// future format alike.
pub fn support_requires_probe(support: SupportState) -> (r: bool)
    ensures
        r == (support != SupportState::Supported),
{
    match support {
        SupportState::Unknown | SupportState::Unsupported | SupportState::FutureFormat => true,
        SupportState::Supported => false,
    }
}

/// A synced state this build can interpret: state format 1 and every
/// profile in profile format 1.
pub fn state_is_supported_v1<S>(state: &EqualizerState<S>) -> (r: bool)
    ensures
        r == (state.state_format_version == EQ_STATE_FORMAT_VERSION && forall|i: int|
            0 <= i < state.profiles@.len() ==> (#[trigger] state.profiles@[i]).format_version
                == EQ_PROFILE_FORMAT_VERSION),
{
    if state.state_format_version != EQ_STATE_FORMAT_VERSION {
        return false;
    }
    let n = state.profiles.len();
    for i in 0..n
        invariant
            n == state.profiles@.len(),
            forall|j: int| 0 <= j < i ==> (#[trigger] state.profiles@[j]).format_version
                == EQ_PROFILE_FORMAT_VERSION,
    {
        if state.profiles[i].format_version != EQ_PROFILE_FORMAT_VERSION {
            return false;
        }
    }
    true
}

/// The names of a list of profiles, in order.
pub open spec fn profile_names<S>(ps: Seq<EqualizerProfile<S>>) -> Seq<String> {
    ps.map_values(|p: EqualizerProfile<S>| p.name)
}

fn names_of<S>(ps: &[EqualizerProfile<S>]) -> (out: Vec<String>)
    ensures
        out@ == profile_names(ps@),
{
    let mut out: Vec<String> = Vec::new();
    let n = ps.len();
    for i in 0..n
        invariant
            n == ps@.len(),
            out@ == profile_names(ps@.take(i as int)),
    {
        out.push(ps[i].name.clone());
        assert(profile_names(ps@.take(i + 1)) =~= profile_names(ps@.take(i as int)).push(
            ps@[i as int].name,
        ));
    }
    assert(ps@.take(n as int) =~= ps@);
    out
}

/// A name for a promoted profile not matching any existing profile's name:
/// the base, else the base with the first free ` (n)` marker, else `Local `
/// and a random suffix (cut to the name limit).
pub fn unique_promotion_name<S>(base: &str, existing: &[EqualizerProfile<S>]) -> (r: String)
    ensures
        match promotion_name_pick(base@, name_keys_of(profile_names(existing@))) {
            Some(n) => r@ == n,
            None => exists|random: Seq<char>|
                random.len() == 32 && r@ == random_promotion_name(random),
        },
{
    let names = names_of(existing);
    let keys = name_keys(&names);
    match pick_promotion_name(base, &keys) {
        Some(n) => n,
        None => {
            let random = random_uuid_simple();
            random_promotion_name_exec(random.as_str())
        },
    }
}

/// The digest seed of a promoted profile's id.
pub open spec fn promotion_seed(scope: Seq<char>, local_profile_id: Seq<char>) -> Seq<char> {
    "octave.equalizer.promotion.v1"@ + seq!['\0'] + scope + seq!['\0'] + local_profile_id
}

/// The server id given to a promoted local profile: a deterministic
/// name-based UUID of the account scope and the local id.
pub fn promotion_profile_id(scope: &str, local_profile_id: &str) -> (r: String)
    ensures
        r@ == uuid_text(
            name_based_bytes(
                sha256(vstd::utf8::encode_utf8(promotion_seed(scope@, local_profile_id@))),
            ),
        ),
{
    let mut v = chars_of("octave.equalizer.promotion.v1");
    v.push('\0');
    push_str(&mut v, scope);
    v.push('\0');
    push_str(&mut v, local_profile_id);
    assert(v@ =~= promotion_seed(scope@, local_profile_id@));
    let seed = string_from_chars(&v);
    name_based_id(seed.as_str())
}

/// A selector in canonical form: current normalization version, matcher
/// name normalized, hardware ids normalized.
pub open spec fn canonical_selector(s: PortableDeviceSelector, c: PortableDeviceSelector) -> bool {
    &&& c.normalization_version == EQ_NORMALIZATION_VERSION
    &&& c.route_kind == s.route_kind
    &&& c.normalized_name@ == normalized_matcher(s.normalized_name@)
    &&& opt_text(c.vendor_id) == normalized_hardware_id(opt_text(s.vendor_id))
    &&& opt_text(c.product_id) == normalized_hardware_id(opt_text(s.product_id))
    &&& c.platform_scope == s.platform_scope
    &&& c.trigger == s.trigger
}

pub open spec fn opt_text(o: Option<String>) -> Option<Seq<char>> {
    match o {
        Some(s) => Some(s@),
        None => None,
    }
}

fn as_opt_str(o: &Option<String>) -> (r: Option<&str>)
    ensures
        match r {
            Some(s) => opt_text(*o) == Some(s@),
            None => o is None,
        },
{
    match o {
        Some(s) => Some(s.as_str()),
        None => None,
    }
}

fn canonicalize_selector(s: &PortableDeviceSelector) -> (c: PortableDeviceSelector)
    ensures
        canonical_selector(*s, c),
{
    PortableDeviceSelector {
        normalization_version: EQ_NORMALIZATION_VERSION,
        route_kind: s.route_kind,
        normalized_name: normalize_matcher(s.normalized_name.as_str()),
        vendor_id: normalize_hardware_id(as_opt_str(&s.vendor_id)),
        product_id: normalize_hardware_id(as_opt_str(&s.product_id)),
        platform_scope: s.platform_scope,
        trigger: s.trigger,
    }
}

/// Canonicalize a rule input in place: trim the label and canonicalize
/// every selector; id, action and enabled flag stay.
pub fn canonicalize_rule(rule: &mut EqualizerDeviceRuleInput)
    ensures
        final(rule).id == old(rule).id,
        final(rule).label@ == trim_ws(old(rule).label@),
        final(rule).action == old(rule).action,
        final(rule).enabled == old(rule).enabled,
        final(rule).selectors@.len() == old(rule).selectors@.len(),
        forall|i: int|
            0 <= i < old(rule).selectors@.len() ==> canonical_selector(
                #[trigger] old(rule).selectors@[i],
                final(rule).selectors@[i],
            ),
{
    rule.label = string_from_chars(&trim(&chars_of(rule.label.as_str())));
    let mut out: Vec<PortableDeviceSelector> = Vec::new();
    let n = rule.selectors.len();
    for i in 0..n
        invariant
            n == rule.selectors@.len(),
            rule.selectors == old(rule).selectors,
            out@.len() == i,
            forall|j: int|
                0 <= j < i ==> canonical_selector(#[trigger] rule.selectors@[j], out@[j]),
    {
        let c = canonicalize_selector(&rule.selectors[i]);
        out.push(c);
    }
    rule.selectors = out;
}

/// The rule built from an input at a revision and priority.
pub fn rule_from_input(input: &EqualizerDeviceRuleInput, revision: Revision, priority: i32) -> (r:
    EqualizerDeviceRule)
    ensures
        rule_of_input(r, *input, revision, priority),
{
    rule_to_overlay(input, revision, priority)
}

/// A validation failure reported as an internal error with its message.
pub fn validation_error(error: EqualizerValidationError) -> (r: AppError)
    ensures
        r == AppError::Internal(error.message),
{
    AppError::Internal(error.message)
}

/// The account/server scope key: a hash of the server URL, then the user
/// for a bearer session, or a device marker for a secret-key session or
/// when signed out.
pub open spec fn scope_text<T>(rest_url: Seq<char>, session: Option<AuthSession<T>>) -> Seq<char> {
    let h = short_hash_text(rest_url);
    match session {
        Some(s) => if s.kind == StoredCredentialKind::Bearer {
            "server:"@ + h + ":user:"@ + match s.user_id {
                Some(u) => u@,
                None => "unknown"@,
            }
        } else {
            "server:"@ + h + ":secret-device"@
        },
        None => "server:"@ + h + ":signed-out-device"@,
    }
}

pub fn scope_for_auth<T>(rest_url: &str, session: Option<&AuthSession<T>>) -> (r: String)
    ensures
        r@ == scope_text(
            rest_url@,
            match session {
                Some(s) => Some(*s),
                None => None,
            },
        ),
{
    let h = hex_hash(rest_url);
    let mut v = chars_of("server:");
    push_str(&mut v, h.as_str());
    match session {
        Some(s) => {
            if s.kind == StoredCredentialKind::Bearer {
                push_str(&mut v, ":user:");
                match &s.user_id {
                    Some(u) => push_str(&mut v, u.as_str()),
                    None => push_str(&mut v, "unknown"),
                }
            } else {
                push_str(&mut v, ":secret-device");
            }
        },
        None => push_str(&mut v, ":signed-out-device"),
    }
    string_from_chars(&v)
}

/// The error for an account/server scope that changed mid-operation.
pub fn scope_changed() -> (r: AppError)
    ensures
        r matches AppError::Conflict { code, message } && code@ == "scope_changed"@ && message@
            == "the equalizer account/server scope changed while the operation was starting"@,
{
    let code = "scope_changed".to_owned();
    let message = "the equalizer account/server scope changed while the operation was starting"
        .to_owned();
    AppError::Conflict { code, message }
}

/// First 12 bytes of the SHA-256 of the text, lowercase hex.
pub open spec fn short_hash_text(value: Seq<char>) -> Seq<char> {
    hex_lower_bytes(sha256(vstd::utf8::encode_utf8(value)).take(12))
}

pub fn hex_hash(value: &str) -> (r: String)
    ensures
        r@ == short_hash_text(value@),
        r@.len() == 24,
{
    let d = sha256_digest(bytes_of(value).as_slice());
    let mut b: Vec<u8> = Vec::new();
    for i in 0..12
        invariant
            d@.len() == 32,
            b@ == d@.take(i as int),
    {
        b.push(d[i]);
        assert(b@ =~= d@.take(i + 1));
    }
    string_from_chars(&hex_lower_bytes_exec(&b))
}

/// The keyed hash persisted in place of a native endpoint id: HMAC-SHA-256
/// of the id under the device secret, lowercase hex.
pub open spec fn endpoint_hmac_text(secret: Seq<u8>, runtime_id: Seq<char>) -> Seq<char> {
    hex_lower_bytes(hmac_sha256(secret, vstd::utf8::encode_utf8(runtime_id)))
}

pub fn endpoint_hmac(secret: &[u8], runtime_id: &str) -> (r: String)
    ensures
        r@ == endpoint_hmac_text(secret@, runtime_id@),
        r@.len() == 64,
{
    let mac = hmac_sha256_digest(secret, bytes_of(runtime_id).as_slice());
    string_from_chars(&hex_lower_bytes_exec(&mac))
}

// ---------------------------------------------------------------------------
// Guards and choices of the service's mutations
// ---------------------------------------------------------------------------

fn owned(s: &str) -> (out: String)
    ensures
        out@ == s@,
{
    string_from_chars(&chars_of(s))
}

/// A local write of profile `id` is refused when it would add a profile to
/// a layer that already holds the per-device maximum.
pub fn local_profile_capacity<S>(profiles: &[EqualizerProfile<S>], id: &str) -> (r: Result<(), AppError>)
    ensures
        !has_profile(profiles@, id@) && profiles@.len() >= MAX_PROFILES ==> (r matches Err(
            AppError::Internal(m),
        ) && m@ == "a device may contain at most 64 local equalizer profiles"@),
        has_profile(profiles@, id@) || profiles@.len() < MAX_PROFILES ==> r is Ok,
{
    let key = owned(id);
    match find_profile(profiles, &key) {
        Some(i) => {
            proof {
                lemma_first_profile(profiles@, id@, i as int);
            }
            Ok(())
        },
        None => if profiles.len() >= MAX_PROFILES {
            Err(AppError::Internal(owned("a device may contain at most 64 local equalizer profiles")))
        } else {
            Ok(())
        },
    }
}

/// A local write of rule `id` is refused when it would add a rule to a layer
/// that already holds the per-device maximum.
pub fn local_rule_capacity(rules: &[EqualizerDeviceRule], id: &str) -> (r: Result<(), AppError>)
    ensures
        !has_rule(rules@, id@) && rules@.len() >= MAX_RULES ==> (r matches Err(AppError::Internal(m))
            && m@ == "a device may contain at most 64 local equalizer rules"@),
        has_rule(rules@, id@) || rules@.len() < MAX_RULES ==> r is Ok,
{
    let key = owned(id);
    match find_rule(rules, &key) {
        Some(i) => {
            proof {
                lemma_first_rule(rules@, id@, i as int);
            }
            Ok(())
        },
        None => if rules.len() >= MAX_RULES {
            Err(AppError::Internal(owned("a device may contain at most 64 local equalizer rules")))
        } else {
            Ok(())
        },
    }
}

/// The priority an updated rule is validated and stored with locally: its
/// current one, else 1.
pub fn priority_for_update(rules: &[EqualizerDeviceRule], id: &str) -> (p: i32)
    ensures
        p == if has_rule(rules@, id@) {
            rules@[first_rule(rules@, id@)].priority
        } else {
            1
        },
{
    let key = owned(id);
    match find_rule(rules, &key) {
        Some(i) => {
            proof {
                lemma_first_rule(rules@, id@, i as int);
            }
            rules[i].priority
        },
        None => 1,
    }
}

/// The priority of a rule written straight to the local layer: its current
/// one, else below every other rule.
pub fn priority_for_local_write(rules: &[EqualizerDeviceRule], id: &str) -> (p: i32)
    requires
        !has_rule(rules@, id@) && rules@.len() > 0 ==> min_priority(rules@) > i32::MIN,
    ensures
        p == if has_rule(rules@, id@) {
            rules@[first_rule(rules@, id@)].priority as int
        } else {
            new_rule_priority(rules@)
        },
{
    let key = owned(id);
    match find_rule(rules, &key) {
        Some(i) => {
            proof {
                lemma_first_rule(rules@, id@, i as int);
            }
            rules[i].priority
        },
        None => lowest_priority_below(rules),
    }
}

/// Is profile `pid` still referenced: by the default, a rule or an exact
/// binding?
pub open spec fn is_referenced(
    default_profile_id: Option<Seq<char>>,
    rules: Seq<EqualizerDeviceRule>,
    bindings: Seq<ExactBinding>,
    pid: Seq<char>,
) -> bool {
    ||| default_profile_id == Some(pid)
    ||| exists|i: int| 0 <= i < rules.len() && (#[trigger] rules[i]).action.profile_id_spec() == Some(pid)
    ||| exists|i: int|
        0 <= i < bindings.len() && (#[trigger] bindings[i]).target.action.profile_id_spec() == Some(pid)
}

fn applies(action: &RuleAction, pid: &str) -> (r: bool)
    ensures
        r == (action.profile_id_spec() == Some(pid@)),
{
    match action {
        RuleAction::Profile { profile_id } => {
            let key = owned(pid);
            *profile_id == key
        },
        RuleAction::Bypass => false,
    }
}

/// A delete that must not leave references behind is refused while the
/// profile is the default, applied by a rule, or the target of an exact
/// binding.
pub fn check_unreferenced(
    default_profile_id: Option<&str>,
    rules: &[EqualizerDeviceRule],
    bindings: &[ExactBinding],
    profile_id: &str,
) -> (r: Result<(), AppError>)
    ensures
        r is Ok <==> !is_referenced(
            match default_profile_id {
                Some(d) => Some(d@),
                None => None::<Seq<char>>,
            },
            rules@,
            bindings@,
            profile_id@,
        ),
        r matches Err(e) ==> e matches AppError::Conflict { code, message } && code@
            == "profile_referenced"@ && message@
            == "profile is still referenced by a default, rule, or exact binding"@,
{
    let mut hit = match default_profile_id {
        Some(d) => owned(d) == owned(profile_id),
        None => false,
    };
    let n = rules.len();
    for i in 0..n
        invariant
            n == rules@.len(),
            hit == (match default_profile_id {
                Some(d) => d@ == profile_id@,
                None => false,
            } || exists|j: int|
                0 <= j < i && (#[trigger] rules@[j]).action.profile_id_spec() == Some(profile_id@)),
    {
        if applies(&rules[i].action, profile_id) {
            hit = true;
        }
    }
    let m = bindings.len();
    for i in 0..m
        invariant
            m == bindings@.len(),
            hit == (match default_profile_id {
                Some(d) => d@ == profile_id@,
                None => false,
            } || (exists|j: int|
                0 <= j < rules@.len() && (#[trigger] rules@[j]).action.profile_id_spec() == Some(
                    profile_id@,
                )) || exists|j: int|
                0 <= j < i && (#[trigger] bindings@[j]).target.action.profile_id_spec() == Some(
                    profile_id@,
                )),
    {
        if applies(&bindings[i].target.action, profile_id) {
            hit = true;
        }
    }
    if hit {
        Err(
            AppError::Conflict {
                code: owned("profile_referenced"),
                message: owned("profile is still referenced by a default, rule, or exact binding"),
            },
        )
    } else {
        Ok(())
    }
}

/// What a profile delete does to a device-local exact binding: one that
/// applied the deleted profile takes the request's local target (and is no
/// longer orphaned), or is marked orphaned when the request names none;
/// others are untouched. Returns whether the binding changed.
pub fn rebind_after_delete(binding: &mut ExactBinding, deleted: &str, target: &Option<ProfileTarget>) -> (changed: bool)
    ensures
        changed == (old(binding).target.action.profile_id_spec() == Some(deleted@)),
        !changed ==> *final(binding) == *old(binding),
        changed ==> final(binding).endpoint_key == old(binding).endpoint_key
            && final(binding).display_label == old(binding).display_label && match *target {
            Some(t) => final(binding).target == t && !final(binding).orphaned,
            None => final(binding).target == old(binding).target && final(binding).orphaned,
        },
{
    if !applies(&binding.target.action, deleted) {
        return false;
    }
    match target {
        Some(t) => {
            binding.target = ProfileTarget { layer: t.layer, action: copy_action(&t.action) };
            binding.orphaned = false;
        },
        None => {
            binding.orphaned = true;
        },
    }
    true
}

/// How the user settles a group of conflicting queued edits.
#[derive(Debug, Clone, Copy, PartialEq, Eq, Structural)]
pub enum ConflictResolution {
    /// Drop the queued edits; the server's state stands.
    KeepServer,
    /// Keep the edits as a device-local copy.
    KeepLocalCopy,
    /// Rebase the edits onto the server's state and queue them again.
    Retry,
}

/// The resolution a command names: `keep_server`, `keep_local_copy` or
/// `retry`; anything else is refused.
pub fn parse_resolution(resolution: &str) -> (r: Result<ConflictResolution, AppError>)
    ensures
        resolution@ == "keep_server"@ ==> r == Ok::<ConflictResolution, AppError>(ConflictResolution::KeepServer),
        resolution@ == "keep_local_copy"@ ==> r == Ok::<ConflictResolution, AppError>(ConflictResolution::KeepLocalCopy),
        resolution@ == "retry"@ ==> r == Ok::<ConflictResolution, AppError>(ConflictResolution::Retry),
        resolution@ != "keep_server"@ && resolution@ != "keep_local_copy"@ && resolution@ != "retry"@
            ==> (r matches Err(AppError::Internal(m)) && m@ == "unknown EQ conflict resolution '"@
            + resolution@ + "'"@),
{
    proof {
        reveal_strlit("keep_server");
        reveal_strlit("keep_local_copy");
        reveal_strlit("retry");
        assert("keep_server"@.len() != "keep_local_copy"@.len());
        assert("keep_server"@.len() != "retry"@.len());
        assert("keep_local_copy"@.len() != "retry"@.len());
    }
    let given = owned(resolution);
    if given == owned("keep_server") {
        Ok(ConflictResolution::KeepServer)
    } else if given == owned("keep_local_copy") {
        Ok(ConflictResolution::KeepLocalCopy)
    } else if given == owned("retry") {
        Ok(ConflictResolution::Retry)
    } else {
        let mut v = chars_of("unknown EQ conflict resolution '");
        push_str(&mut v, resolution);
        push_str(&mut v, "'");
        Err(AppError::Internal(string_from_chars(&v)))
    }
}

/// Before a promotion, what the recorded server support allows: a newer
/// format refuses, unknown or unsupported asks for a probe (`true`),
/// supported goes ahead (`false`).
pub fn promotion_needs_probe(support: SupportState) -> (r: Result<bool, AppError>)
    ensures
        support == SupportState::FutureFormat ==> (r matches Err(AppError::Unsupported(m)) && m@
            == "this server uses a newer equalizer format; update Octave before promoting"@),
        support == SupportState::Supported ==> r == Ok::<bool, AppError>(false),
        (support == SupportState::Unknown || support == SupportState::Unsupported) ==> r == Ok::<
            bool,
            AppError,
        >(true),
{
    match support {
        SupportState::FutureFormat => Err(
            AppError::Unsupported(
                owned("this server uses a newer equalizer format; update Octave before promoting"),
            ),
        ),
        SupportState::Supported => Ok(false),
        SupportState::Unknown | SupportState::Unsupported => Ok(true),
    }
}

/// A promotion goes on only when a fresh probe found the server supported.
pub fn check_probed_support(probed: SupportState) -> (r: Result<(), AppError>)
    ensures
        r is Ok <==> probed == SupportState::Supported,
        r matches Err(e) ==> e matches AppError::Unsupported(m) && m@
            == "the configured server does not support synchronized equalizer profiles"@,
{
    match probed {
        SupportState::Supported => Ok(()),
        _ => Err(
            AppError::Unsupported(
                owned("the configured server does not support synchronized equalizer profiles"),
            ),
        ),
    }
}

/// A promotion waits until no queued edit is left.
pub fn check_nothing_pending(pending: i64) -> (r: Result<(), AppError>)
    ensures
        r is Ok <==> pending <= 0,
        r matches Err(e) ==> e matches AppError::Conflict { code, message } && code@ == "sync_pending"@
            && message@ == "sync queued equalizer edits before promoting a local profile"@,
{
    if pending > 0 {
        Err(
            AppError::Conflict {
                code: owned("sync_pending"),
                message: owned("sync queued equalizer edits before promoting a local profile"),
            },
        )
    } else {
        Ok(())
    }
}

/// The name a promoted profile takes: that of the synced profile already
/// holding its id, else a promotion name free among the synced profiles.
pub fn promotion_name<S>(synced: &[EqualizerProfile<S>], promoted_id: &str, base: &str) -> (r: String)
    ensures
        has_profile(synced@, promoted_id@) ==> r == synced@[first_profile(synced@, promoted_id@)].name,
        !has_profile(synced@, promoted_id@) ==> match promotion_name_pick(
            base@,
            name_keys_of(profile_names(synced@)),
        ) {
            Some(n) => r@ == n,
            None => exists|random: Seq<char>|
                random.len() == 32 && r@ == random_promotion_name(random),
        },
{
    let key = owned(promoted_id);
    match find_profile(synced, &key) {
        Some(i) => {
            proof {
                lemma_first_profile(synced@, promoted_id@, i as int);
            }
            synced[i].name.clone()
        },
        None => unique_promotion_name(base, synced),
    }
}

/// The private endpoint key of the selected output, for an exact binding:
/// refused when no output is selected, when the selected one has no stable
/// exact binding, or when it has no endpoint key.
pub fn selected_endpoint_key(outputs: &[AudioOutput]) -> (r: Result<(String, String), AppError>)
    ensures
        match r {
            Ok((key, display)) => exists|i: int|
                0 <= i < outputs@.len() && (#[trigger] outputs@[i]).selected && (forall|j: int|
                    0 <= j < i ==> !(#[trigger] outputs@[j]).selected)
                    && outputs@[i].binding_stability == BindingStability::PersistentExact
                    && outputs@[i].local_endpoint_key == Some(key) && display
                    == outputs@[i].display_name,
            Err(e) => e matches AppError::Internal(m) && ((forall|i: int|
                0 <= i < outputs@.len() ==> !(#[trigger] outputs@[i]).selected) && m@
                == "no selected audio output"@ || exists|i: int|
                0 <= i < outputs@.len() && (#[trigger] outputs@[i]).selected && (forall|j: int|
                    0 <= j < i ==> !(#[trigger] outputs@[j]).selected) && if outputs@[i].binding_stability
                    != BindingStability::PersistentExact {
                    m@ == "the current output does not expose a stable exact binding"@
                } else {
                    outputs@[i].local_endpoint_key is None && m@
                        == "the current output has no private endpoint key"@
                }),
        },
{
    let n = outputs.len();
    let mut i: usize = 0;
    while i < n
        invariant
            n == outputs@.len(),
            i <= n,
            forall|j: int| 0 <= j < i ==> !(#[trigger] outputs@[j]).selected,
        decreases n - i,
    {
        if outputs[i].selected {
            let o = &outputs[i];
            if o.binding_stability != BindingStability::PersistentExact {
                return Err(
                    AppError::Internal(owned("the current output does not expose a stable exact binding")),
                );
            }
            return match &o.local_endpoint_key {
                Some(k) => Ok((k.clone(), o.display_name.clone())),
                None => Err(AppError::Internal(owned("the current output has no private endpoint key"))),
            };
        }
        i = i + 1;
    }
    Err(AppError::Internal(owned("no selected audio output")))
}

/// The response reported for a mutation applied without the server: the
/// active layer's state, marked changed, with no audit entry. The local
/// layer shows as a state of the current format at revision 0.
pub fn synthetic_mutation<S>(snapshot: EqualizerSnapshot<S>) -> (r: EqualizerMutationResponse<S>)
    ensures
        r.changed,
        r.audit_id is None,
        snapshot.active_layer == ProfileLayer::Synced ==> r.state == snapshot.synced,
        snapshot.active_layer == ProfileLayer::LocalOnly ==> r.state == (EqualizerState {
            state_format_version: EQ_STATE_FORMAT_VERSION,
            state_revision: Revision(0),
            settings_revision: Revision(0),
            default_profile_id: snapshot.local.default_profile_id,
            profiles: snapshot.local.profiles,
            device_rules: snapshot.local.device_rules,
        }),
{
    let state = match snapshot.active_layer {
        ProfileLayer::Synced => snapshot.synced,
        ProfileLayer::LocalOnly => EqualizerState {
            state_format_version: EQ_STATE_FORMAT_VERSION,
            state_revision: Revision(0),
            settings_revision: Revision(0),
            default_profile_id: snapshot.local.default_profile_id,
            profiles: snapshot.local.profiles,
            device_rules: snapshot.local.device_rules,
        },
    };
    EqualizerMutationResponse { changed: true, audit_id: None, state }
}

/// `o` is the output `i` as the service keeps it: display name trimmed,
/// hardware ids normalised, the platform id replaced by its keyed hash
/// under `secret` and then dropped.
pub open spec fn scrubbed(i: AudioOutput, o: AudioOutput, secret: Seq<u8>) -> bool {
    &&& o.display_name@ == trim_ws(i.display_name@)
    &&& opt_text(o.vendor_id) == normalized_hardware_id(opt_text(i.vendor_id))
    &&& opt_text(o.product_id) == normalized_hardware_id(opt_text(i.product_id))
    &&& opt_text(o.local_endpoint_key) == match i.runtime_id {
        Some(r) => Some(endpoint_hmac_text(secret, r@)),
        None => None::<Seq<char>>,
    }
    &&& o.runtime_id is None
    &&& o.route_kind == i.route_kind
    &&& o.connected == i.connected
    &&& o.selected == i.selected
    &&& o.accuracy == i.accuracy
    &&& o.binding_stability == i.binding_stability
}

/// Prepare reported outputs for the service: each display name trimmed,
/// hardware ids normalised, and the raw platform id replaced by its keyed
/// hash so that it is never kept.
pub fn scrub_outputs(outputs: &mut Vec<AudioOutput>, secret: &[u8])
    ensures
        final(outputs)@.len() == old(outputs)@.len(),
        forall|i: int|
            0 <= i < old(outputs)@.len() ==> scrubbed(
                old(outputs)@[i],
                #[trigger] final(outputs)@[i],
                secret@,
            ),
{
    let ghost orig = outputs@;
    let n = outputs.len();
    for i in 0..n
        invariant
            n == orig.len(),
            outputs@.len() == n,
            forall|j: int| 0 <= j < i ==> scrubbed(orig[j], #[trigger] outputs@[j], secret@),
            forall|j: int| i <= j < n ==> #[trigger] outputs@[j] == orig[j],
    {
        let display = string_from_chars(&trim(&chars_of(outputs[i].display_name.as_str())));
        let vendor = normalize_hardware_id(as_opt_str(&outputs[i].vendor_id));
        let product = normalize_hardware_id(as_opt_str(&outputs[i].product_id));
        let key = match &outputs[i].runtime_id {
            Some(r) => Some(endpoint_hmac(secret, r.as_str())),
            None => None,
        };
        outputs[i].display_name = display;
        outputs[i].vendor_id = vendor;
        outputs[i].product_id = product;
        outputs[i].local_endpoint_key = key;
        outputs[i].runtime_id = None;
    }
}

/// Two reported outputs are the same report: every field alike.
pub open spec fn same_output(a: AudioOutput, b: AudioOutput) -> bool {
    &&& opt_text(a.runtime_id) == opt_text(b.runtime_id)
    &&& opt_text(a.local_endpoint_key) == opt_text(b.local_endpoint_key)
    &&& a.display_name@ == b.display_name@
    &&& a.route_kind == b.route_kind
    &&& opt_text(a.vendor_id) == opt_text(b.vendor_id)
    &&& opt_text(a.product_id) == opt_text(b.product_id)
    &&& a.connected == b.connected
    &&& a.selected == b.selected
    &&& a.accuracy == b.accuracy
    &&& a.binding_stability == b.binding_stability
}

/// Two output lists are the same report, output by output.
pub open spec fn same_outputs(a: Seq<AudioOutput>, b: Seq<AudioOutput>) -> bool {
    a.len() == b.len() && forall|i: int| 0 <= i < a.len() ==> same_output(#[trigger] a[i], b[i])
}

fn same_opt_text(a: &Option<String>, b: &Option<String>) -> (r: bool)
    ensures
        r == (opt_text(*a) == opt_text(*b)),
{
    match (a, b) {
        (Some(x), Some(y)) => *x == *y,
        (None, None) => true,
        _ => false,
    }
}

fn same_output_exec(a: &AudioOutput, b: &AudioOutput) -> (r: bool)
    ensures
        r == same_output(*a, *b),
{
    same_opt_text(&a.runtime_id, &b.runtime_id) && same_opt_text(
        &a.local_endpoint_key,
        &b.local_endpoint_key,
    ) && a.display_name == b.display_name && a.route_kind == b.route_kind && same_opt_text(
        &a.vendor_id,
        &b.vendor_id,
    ) && same_opt_text(&a.product_id, &b.product_id) && a.connected == b.connected && a.selected
        == b.selected && a.accuracy == b.accuracy && a.binding_stability == b.binding_stability
}

/// What the service does with a fresh report of the outputs.
#[derive(Debug, Clone, Copy, PartialEq, Eq, Structural)]
pub enum OutputsStep {
    /// Nothing changed and a resolution is at hand: hand it back.
    ReuseResolved,
    /// Nothing changed but nothing is resolved yet: resolve.
    Resolve,
    /// The outputs changed: drop the session's manual override, keep the
    /// new list, resolve.
    ReplaceAndResolve,
}

/// The step for a scrubbed report: an identical report reuses the last
/// resolution when there is one; a different report clears the manual
/// override (it was chosen for other outputs) and is resolved afresh.
pub fn after_outputs_report(current: &[AudioOutput], reported: &[AudioOutput], has_last_resolved: bool) -> (r: OutputsStep)
    ensures
        r == if same_outputs(current@, reported@) {
            if has_last_resolved {
                OutputsStep::ReuseResolved
            } else {
                OutputsStep::Resolve
            }
        } else {
            OutputsStep::ReplaceAndResolve
        },
{
    let mut same = current.len() == reported.len();
    if same {
        let n = current.len();
        let mut i: usize = 0;
        while i < n
            invariant
                n == current@.len(),
                n == reported@.len(),
                i <= n,
                same == forall|j: int| 0 <= j < i ==> same_output(#[trigger] current@[j], reported@[j]),
            decreases n - i,
        {
            let s = same_output_exec(&current[i], &reported[i]);
            same = same && s;
            i = i + 1;
        }
    }
    if !same {
        OutputsStep::ReplaceAndResolve
    } else if has_last_resolved {
        OutputsStep::ReuseResolved
    } else {
        OutputsStep::Resolve
    }
}

} // verus!
