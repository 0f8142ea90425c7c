//! How equalizer state is written to and read back from its table columns,
//! the ids and names given to a server snapshot preserved as local-only
//! recovery data, and the payload comparison used when reconciling rules.
use vstd::prelude::*;
use vstd::string::StringSliceAdditionalSpecFns;

use crate::equalizer::model::{
    name_key, normalized_matcher, EqualizerDeviceRule, PendingEqualizerOp, ProfileLayer, Revision,
    RuleAction, SupportState, MAX_NAME_CHARS,
};
use crate::error::AppError;
use crate::hashing::{sha256, sha256_digest, uuid_hyphenated, uuid_text};
use crate::numbers::{i64_text, int_error_message, int_error_text, parse_i64, parse_i64_spec};
use crate::text::{
    bytes_of, chars_of, decimal_digits, decimal_string, push_all, push_str, slice_chars,
    string_from_chars, trim, trim_ws,
};

verus! {

/// Old → new ids allocated while cloning a server snapshot into the
/// local-only recovery layer. Each old id occurs once.
#[derive(Debug)]
pub struct EqualizerRecoveryMap {
    pub profile_ids: Vec<(String, String)>,
    pub rule_ids: Vec<(String, String)>,
}

impl EqualizerRecoveryMap {
    pub fn new() -> (r: Self)
        ensures
            r.profile_ids@.len() == 0,
            r.rule_ids@.len() == 0,
    {
        EqualizerRecoveryMap { profile_ids: Vec::new(), rule_ids: Vec::new() }
    }
}

/// Sync bookkeeping for one account scope.
#[derive(Debug, Clone, PartialEq, Eq)]
pub struct EqualizerSyncState {
    pub state_revision: Revision,
    pub etag: Option<String>,
    pub has_complete_snapshot: bool,
    pub support_state: SupportState,
    pub last_probe_at: Option<String>,
    pub last_probe_app_version: Option<String>,
    pub synced_at: Option<String>,
}

impl EqualizerSyncState {
    /// Nothing synced yet: revision 0, support unknown.
    pub fn initial() -> (r: Self)
        ensures
            r.state_revision == Revision(0),
            r.etag is None,
            !r.has_complete_snapshot,
            r.support_state == SupportState::Unknown,
            r.last_probe_at is None,
            r.last_probe_app_version is None,
            r.synced_at is None,
    {
        EqualizerSyncState {
            state_revision: Revision(0),
            etag: None,
            has_complete_snapshot: false,
            support_state: SupportState::Unknown,
            last_probe_at: None,
            last_probe_app_version: None,
            synced_at: None,
        }
    }
}

impl Default for EqualizerSyncState {
    fn default() -> (r: Self)
        ensures
            r.state_revision == Revision(0),
            r.etag is None,
            !r.has_complete_snapshot,
            r.support_state == SupportState::Unknown,
            r.last_probe_at is None,
            r.last_probe_app_version is None,
            r.synced_at is None,
    {
        EqualizerSyncState::initial()
    }
}

// ---------------------------------------------------------------------------
// Columns
// ---------------------------------------------------------------------------

/// The `action` column for a rule action.
pub open spec fn action_tag(a: RuleAction) -> Seq<char> {
    match a {
        RuleAction::Profile { .. } => "profile"@,
        RuleAction::Bypass => "bypass"@,
    }
}

/// The `action` and `profile_id` columns of a rule action.
pub fn action_columns(action: &RuleAction) -> (r: (&'static str, Option<&str>))
    ensures
        r.0@ == action_tag(*action),
        match r.1 {
            Some(p) => action.profile_id_spec() == Some(p@),
            None => action.profile_id_spec() is None,
        },
{
    match action {
        RuleAction::Profile { profile_id } => ("profile", Some(profile_id.as_str())),
        RuleAction::Bypass => ("bypass", None),
    }
}

/// The `layer` column for a profile layer.
pub open spec fn layer_text(layer: ProfileLayer) -> Seq<char> {
    match layer {
        ProfileLayer::Synced => "synced"@,
        ProfileLayer::LocalOnly => "local_only"@,
    }
}

pub fn layer_string(layer: ProfileLayer) -> (r: &'static str)
    ensures
        r@ == layer_text(layer),
{
    match layer {
        ProfileLayer::Synced => "synced",
        ProfileLayer::LocalOnly => "local_only",
    }
}

fn eq_str(a: &str, lit: &str) -> (r: bool)
    ensures
        r == (a@ == lit@),
{
    a.to_owned() == lit.to_owned()
}

pub open spec fn invalid_action_text() -> Seq<char> {
    "invalid EQ rule action/reference"@
}

/// A rule action read back from its columns: `profile` with a profile id,
/// or `bypass` without one; anything else is no action.
pub open spec fn action_from_columns_spec(action: Seq<char>, profile_id: Option<String>) -> Option<
    RuleAction,
> {
    match profile_id {
        Some(p) => if action == "profile"@ {
            Some(RuleAction::Profile { profile_id: p })
        } else {
            None
        },
        None => if action == "bypass"@ {
            Some(RuleAction::Bypass)
        } else {
            None
        },
    }
}

/// The `profile_id` column of a rule action.
pub open spec fn action_profile_column(a: RuleAction) -> Option<String> {
    match a {
        RuleAction::Profile { profile_id } => Some(profile_id),
        RuleAction::Bypass => None,
    }
}

/// Columns that name no action are a database error.
pub fn action_from_columns(action: &str, profile_id: Option<String>) -> (r: Result<
    RuleAction,
    AppError,
>)
    ensures
        match action_from_columns_spec(action@, profile_id) {
            Some(a) => r == Ok::<RuleAction, AppError>(a),
            None => r matches Err(AppError::Database(m)) && m@ == invalid_action_text(),
        },
{
    let is_profile = eq_str(action, "profile");
    let is_bypass = eq_str(action, "bypass");
    match profile_id {
        Some(p) => {
            if is_profile {
                return Ok(RuleAction::Profile { profile_id: p });
            }
        },
        None => {
            if is_bypass {
                return Ok(RuleAction::Bypass);
            }
        },
    }
    let e = AppError::Database("invalid EQ rule action/reference".to_owned());
    proof {
        reveal_strlit("invalid EQ rule action/reference");
    }
    Err(e)
}

/// Writing an action to its columns and reading them back gives the action.
pub proof fn law_action_columns_round_trip(a: RuleAction)
    ensures
        action_from_columns_spec(action_tag(a), action_profile_column(a)) == Some(a),
{
}

/// The error text for a revision column that does not parse.
pub open spec fn revision_error_text(value: Seq<char>, kind: crate::numbers::IntErrorKind) -> Seq<
    char,
> {
    "invalid EQ revision '"@ + value + "': "@ + int_error_text(kind)
}

/// A revision column: a decimal `i64`.
pub fn parse_revision(value: &str) -> (r: Result<Revision, AppError>)
    ensures
        match parse_i64_spec(value@) {
            Ok(n) => r == Ok::<Revision, AppError>(Revision(n)),
            Err(kind) => r matches Err(AppError::Database(m)) && m@ == revision_error_text(
                value@,
                kind,
            ),
        },
{
    match parse_i64(&chars_of(value)) {
        Ok(n) => Ok(Revision(n)),
        Err(kind) => {
            let mut v = chars_of("invalid EQ revision '");
            push_str(&mut v, value);
            push_str(&mut v, "': ");
            push_str(&mut v, int_error_message(kind));
            Err(AppError::Database(string_from_chars(&v)))
        },
    }
}

/// The `support_state` column for a support state.
pub open spec fn support_text(s: SupportState) -> Seq<char> {
    match s {
        SupportState::Unknown => "unknown"@,
        SupportState::Supported => "supported"@,
        SupportState::Unsupported => "unsupported"@,
        SupportState::FutureFormat => "future_format"@,
    }
}

pub fn support_string(value: SupportState) -> (r: &'static str)
    ensures
        r@ == support_text(value),
{
    match value {
        SupportState::Unknown => "unknown",
        SupportState::Supported => "supported",
        SupportState::Unsupported => "unsupported",
        SupportState::FutureFormat => "future_format",
    }
}

/// The support state a column names, if it names one.
pub open spec fn support_named(text: Seq<char>) -> Option<SupportState> {
    if text == "unknown"@ {
        Some(SupportState::Unknown)
    } else if text == "supported"@ {
        Some(SupportState::Supported)
    } else if text == "unsupported"@ {
        Some(SupportState::Unsupported)
    } else if text == "future_format"@ {
        Some(SupportState::FutureFormat)
    } else {
        None
    }
}

pub fn parse_support(value: &str) -> (r: Result<SupportState, AppError>)
    ensures
        match support_named(value@) {
            Some(s) => r == Ok::<SupportState, AppError>(s),
            None => r matches Err(AppError::Database(m)) && m@ == "invalid EQ support state "@
                + value@,
        },
{
    if eq_str(value, "unknown") {
        Ok(SupportState::Unknown)
    } else if eq_str(value, "supported") {
        Ok(SupportState::Supported)
    } else if eq_str(value, "unsupported") {
        Ok(SupportState::Unsupported)
    } else if eq_str(value, "future_format") {
        Ok(SupportState::FutureFormat)
    } else {
        let mut v = chars_of("invalid EQ support state ");
        push_str(&mut v, value);
        Err(AppError::Database(string_from_chars(&v)))
    }
}

/// The raw columns of a stored sync-state row.
#[derive(Debug, Clone)]
pub struct SyncStateRow {
    pub state_revision: String,
    pub etag: Option<String>,
    pub has_complete_snapshot: i64,
    pub support_state: String,
    pub last_probe_at: Option<String>,
    pub last_probe_app_version: Option<String>,
    pub synced_at: Option<String>,
}

/// Decodes the sync state of a scope: no row is the initial state; a row
/// with a bad revision or support column is a database error (the revision
/// is checked first); otherwise each column is carried over, the snapshot
/// flag being any non-zero integer.
pub fn sync_state_from_row(row: Option<SyncStateRow>) -> (r: Result<EqualizerSyncState, AppError>)
    ensures
        match row {
            None => r matches Ok(s) && s.state_revision == Revision(0) && s.etag is None
                && !s.has_complete_snapshot && s.support_state == SupportState::Unknown
                && s.last_probe_at is None && s.last_probe_app_version is None && s.synced_at is None,
            Some(w) => match (parse_i64_spec(w.state_revision@), support_named(w.support_state@)) {
                (Err(kind), _) => r matches Err(AppError::Database(m)) && m@ == revision_error_text(
                    w.state_revision@,
                    kind,
                ),
                (Ok(_), None) => r matches Err(AppError::Database(m)) && m@
                    == "invalid EQ support state "@ + w.support_state@,
                (Ok(n), Some(support)) => r == Ok::<EqualizerSyncState, AppError>(
                    EqualizerSyncState {
                        state_revision: Revision(n),
                        etag: w.etag,
                        has_complete_snapshot: w.has_complete_snapshot != 0,
                        support_state: support,
                        last_probe_at: w.last_probe_at,
                        last_probe_app_version: w.last_probe_app_version,
                        synced_at: w.synced_at,
                    },
                ),
            },
        },
{
    let w = match row {
        None => {
            return Ok(EqualizerSyncState::initial());
        },
        Some(w) => w,
    };
    let state_revision = match parse_revision(w.state_revision.as_str()) {
        Ok(rev) => rev,
        Err(e) => {
            return Err(e);
        },
    };
    let support_state = match parse_support(w.support_state.as_str()) {
        Ok(s) => s,
        Err(e) => {
            return Err(e);
        },
    };
    Ok(EqualizerSyncState {
        state_revision,
        etag: w.etag,
        has_complete_snapshot: w.has_complete_snapshot != 0,
        support_state,
        last_probe_at: w.last_probe_at,
        last_probe_app_version: w.last_probe_app_version,
        synced_at: w.synced_at,
    })
}

/// A support state written to its column reads back as itself.
pub proof fn law_support_round_trip(s: SupportState)
    ensures
        support_named(support_text(s)) == Some(s),
{
    reveal_strlit("unknown");
    reveal_strlit("supported");
    reveal_strlit("unsupported");
    reveal_strlit("future_format");
    assert("unknown"@.len() != "supported"@.len());
    assert("unknown"@.len() != "future_format"@.len());
    assert("supported"@.len() != "future_format"@.len());
    assert("unsupported"@.len() != "future_format"@.len());
    assert("unknown"@[0] != "supported"@[0]);
    assert("unknown"@[2] != "unsupported"@[2]);
    assert("supported"@[0] != "unsupported"@[0]);
}

// ---------------------------------------------------------------------------
// Outbox rows
// ---------------------------------------------------------------------------

/// An outbox row as stored.
#[derive(Debug, Clone)]
pub struct PendingRow {
    pub id: i64,
    pub operation_uuid: String,
    pub account_scope: String,
    pub op_type: String,
    pub entity_id: Option<String>,
    pub base_revision: Option<String>,
    pub dependency_group: String,
    pub payload_json: String,
    pub created_at: String,
    pub attempts: i64,
    pub last_error: Option<String>,
}

/// An outbox row read back: every column carried over, the base revision
/// parsed; a base revision that does not parse is a database error.
pub fn pending_from_row(row: PendingRow) -> (r: Result<PendingEqualizerOp, AppError>)
    ensures
        match row.base_revision {
            Some(b) => match parse_i64_spec(b@) {
                Ok(n) => r matches Ok(op) && op.base_revision == Some(Revision(n)),
                Err(kind) => r matches Err(AppError::Database(m)) && m@ == revision_error_text(
                    b@,
                    kind,
                ),
            },
            None => r matches Ok(op) && op.base_revision is None,
        },
        r matches Ok(op) ==> {
            &&& op.id == row.id
            &&& op.operation_uuid == row.operation_uuid
            &&& op.account_scope == row.account_scope
            &&& op.op_type == row.op_type
            &&& op.entity_id == row.entity_id
            &&& op.dependency_group == row.dependency_group
            &&& op.payload_json == row.payload_json
            &&& op.created_at == row.created_at
            &&& op.attempts == row.attempts
            &&& op.last_error == row.last_error
        },
{
    let base_revision = match &row.base_revision {
        Some(b) => match parse_revision(b.as_str()) {
            Ok(rev) => Some(rev),
            Err(e) => return Err(e),
        },
        None => None,
    };
    Ok(
        PendingEqualizerOp {
            id: row.id,
            operation_uuid: row.operation_uuid,
            account_scope: row.account_scope,
            op_type: row.op_type,
            entity_id: row.entity_id,
            base_revision,
            dependency_group: row.dependency_group,
            payload_json: row.payload_json,
            created_at: row.created_at,
            attempts: row.attempts,
            last_error: row.last_error,
        },
    )
}

// ---------------------------------------------------------------------------
// Recovery ids and names
// ---------------------------------------------------------------------------

/// A name-based UUID from a digest: its first 16 bytes with the version
/// nibble set to 5 and the RFC 4122 variant bits.
pub open spec fn name_based_bytes(d: Seq<u8>) -> Seq<u8> {
    d.take(16).update(6, (d[6] & 0x0f) | 0x50).update(8, (d[8] & 0x3f) | 0x80)
}

pub(crate) fn name_based_id(seed: &str) -> (r: String)
    ensures
        r@ == uuid_text(name_based_bytes(sha256(seed.spec_bytes()))),
{
    let d = sha256_digest(bytes_of(seed).as_slice());
    let mut b: Vec<u8> = Vec::new();
    for i in 0..16
        invariant
            d@.len() == 32,
            b@ == d@.take(i as int),
    {
        b.push(d[i]);
        assert(b@ =~= d@.take(i + 1));
    }
    let b6 = (b[6] & 0x0f) | 0x50;
    let b8 = (b[8] & 0x3f) | 0x80;
    b.set(6, b6);
    b.set(8, b8);
    assert(b@ =~= name_based_bytes(d@));
    uuid_hyphenated(b.as_slice())
}

/// The digest seed of a recovery profile id.
pub open spec fn recovery_seed(scope: Seq<char>, server_profile_id: Seq<char>, salt: u32) -> Seq<
    char,
> {
    "octave.equalizer.recovery.v1"@ + seq!['\0'] + scope + seq!['\0'] + server_profile_id + seq![
        '\0',
    ] + decimal_digits(salt as nat)
}

/// The local id given to a server profile preserved for recovery: a
/// deterministic name-based UUID of the scope, the server id and a salt.
pub fn recovery_profile_id(scope: &str, server_profile_id: &str, salt: u32) -> (r: String)
    ensures
        r@ == uuid_text(
            name_based_bytes(
                sha256(vstd::utf8::encode_utf8(recovery_seed(scope@, server_profile_id@, salt))),
            ),
        ),
{
    let mut v = chars_of("octave.equalizer.recovery.v1");
    v.push('\0');
    push_str(&mut v, scope);
    v.push('\0');
    push_str(&mut v, server_profile_id);
    v.push('\0');
    let d = decimal_string(salt as u64);
    push_all(&mut v, &d);
    assert(v@ =~= recovery_seed(scope@, server_profile_id@, salt));
    let seed = string_from_chars(&v);
    name_based_id(seed.as_str())
}

/// Two selectors with the same fields (strings compared as text).
pub open spec fn same_selector_spec(
    a: crate::equalizer::model::PortableDeviceSelector,
    b: crate::equalizer::model::PortableDeviceSelector,
) -> bool {
    &&& a.normalization_version == b.normalization_version
    &&& a.route_kind == b.route_kind
    &&& a.normalized_name@ == b.normalized_name@
    &&& opt_text(a.vendor_id) == opt_text(b.vendor_id)
    &&& opt_text(a.product_id) == opt_text(b.product_id)
    &&& a.platform_scope == b.platform_scope
    &&& a.trigger == b.trigger
}

pub open spec fn opt_text(o: Option<String>) -> Option<Seq<char>> {
    match o {
        Some(s) => Some(s@),
        None => None,
    }
}

/// Do two rules carry the same payload (label, action, selectors,
/// enabled)? Ids, priorities and revisions are not compared.
pub open spec fn same_rule_payload(left: EqualizerDeviceRule, right: EqualizerDeviceRule) -> bool {
    &&& left.label@ == right.label@
    &&& left.action.profile_id_spec() == right.action.profile_id_spec()
    &&& left.selectors@.len() == right.selectors@.len()
    &&& forall|k: int|
        0 <= k < left.selectors@.len() ==> same_selector_spec(
            #[trigger] left.selectors@[k],
            right.selectors@[k],
        )
    &&& left.enabled == right.enabled
}

pub(crate) fn same_action(a: &RuleAction, b: &RuleAction) -> (r: bool)
    ensures
        r == (a.profile_id_spec() == b.profile_id_spec()),
{
    match (a, b) {
        (RuleAction::Profile { profile_id: x }, RuleAction::Profile { profile_id: y }) => *x == *y,
        (RuleAction::Bypass, RuleAction::Bypass) => true,
        _ => false,
    }
}

fn same_opt(a: &Option<String>, b: &Option<String>) -> (r: bool)
    ensures
        r == (opt_text(*a) == opt_text(*b)),
{
    match (a, b) {
        (Some(x), Some(y)) => *x == *y,
        (None, None) => true,
        _ => false,
    }
}

pub(crate) fn same_selector(
    a: &crate::equalizer::model::PortableDeviceSelector,
    b: &crate::equalizer::model::PortableDeviceSelector,
) -> (r: bool)
    ensures
        r == same_selector_spec(*a, *b),
{
    a.normalization_version == b.normalization_version && a.route_kind == b.route_kind
        && a.normalized_name == b.normalized_name && same_opt(&a.vendor_id, &b.vendor_id)
        && same_opt(&a.product_id, &b.product_id) && a.platform_scope == b.platform_scope
        && a.trigger == b.trigger
}

pub fn rule_payload_eq(left: &EqualizerDeviceRule, right: &EqualizerDeviceRule) -> (r: bool)
    ensures
        r == same_rule_payload(*left, *right),
{
    if !(left.label == right.label) || !same_action(&left.action, &right.action) || left.enabled
        != right.enabled {
        return false;
    }
    if left.selectors.len() != right.selectors.len() {
        return false;
    }
    let n = left.selectors.len();
    for i in 0..n
        invariant
            n == left.selectors@.len(),
            n == right.selectors@.len(),
            forall|k: int|
                0 <= k < i ==> same_selector_spec(#[trigger] left.selectors@[k], right.selectors@[k]),
    {
        if !same_selector(&left.selectors[i], &right.selectors[i]) {
            return false;
        }
    }
    true
}

// ---------------------------------------------------------------------------
// Outbox dependency groups
// ---------------------------------------------------------------------------

/// A queued operation as the enqueue decision sees it: its row id, its
/// dependency group and the entity ids it depends on.
#[derive(Debug, Clone)]
pub struct QueuedDeps {
    pub id: i64,
    pub group: String,
    pub entities: Vec<String>,
}

pub open spec fn texts(v: Seq<String>) -> Seq<Seq<char>> {
    v.map_values(|s: String| s@)
}

/// Does a queued operation depend on the new one: the same group, or a
/// shared entity?
pub open spec fn depends_on(q: QueuedDeps, proposed_group: Seq<char>, deps: Seq<Seq<char>>) -> bool {
    q.group@ == proposed_group || exists|i: int|
        0 <= i < q.entities@.len() && deps.contains(#[trigger] q.entities@[i]@)
}

/// The matched operation with the smallest id (the first such on a tie),
/// scanning `rows[from..]` after `best`.
pub open spec fn oldest_match(
    rows: Seq<QueuedDeps>,
    proposed_group: Seq<char>,
    deps: Seq<Seq<char>>,
    best: Option<(i64, Seq<char>)>,
) -> Option<(i64, Seq<char>)>
    decreases rows.len(),
{
    if rows.len() == 0 {
        best
    } else {
        let q = rows[0];
        let next = if depends_on(q, proposed_group, deps) && match best {
            Some((id, _)) => q.id < id,
            None => true,
        } {
            Some((q.id, q.group@))
        } else {
            best
        };
        oldest_match(rows.drop_first(), proposed_group, deps, next)
    }
}

/// The group a new operation joins: that of the oldest queued operation it
/// depends on, else its own.
pub open spec fn chosen_group(rows: Seq<QueuedDeps>, proposed_group: Seq<char>, deps: Seq<Seq<char>>) -> Seq<char> {
    match oldest_match(rows, proposed_group, deps, None) {
        Some((_, g)) => g,
        None => proposed_group,
    }
}

fn shares_entity(entities: &Vec<String>, deps: &Vec<String>) -> (r: bool)
    ensures
        r == exists|i: int| 0 <= i < entities@.len() && texts(deps@).contains(#[trigger] entities@[i]@),
{
    let n = entities.len();
    for i in 0..n
        invariant
            n == entities@.len(),
            forall|j: int| 0 <= j < i ==> !texts(deps@).contains(#[trigger] entities@[j]@),
    {
        if crate::equalizer::naming::contains_key(deps, &entities[i]) {
            assert(texts(deps@) == crate::equalizer::naming::texts(deps@));
            return true;
        }
        assert(texts(deps@) == crate::equalizer::naming::texts(deps@));
    }
    false
}

/// Where a new outbox operation goes: the dependency group it joins (that
/// of the oldest queued operation sharing its group or an entity, else its
/// own), and the other groups of the operations it depends on, each once,
/// which merge into it.
pub fn plan_enqueue(proposed_group: &str, dependencies: &Vec<String>, rows: &Vec<QueuedDeps>) -> (r: (
    String,
    Vec<String>,
))
    ensures
        r.0@ == chosen_group(rows@, proposed_group@, texts(dependencies@)),
        forall|i: int, j: int|
            0 <= i < j < r.1@.len() ==> (#[trigger] r.1@[i])@ != (#[trigger] r.1@[j])@,
        forall|i: int| 0 <= i < r.1@.len() ==> (#[trigger] r.1@[i])@ != r.0@,
        forall|g: Seq<char>|
            texts(r.1@).contains(g) <==> g != r.0@ && exists|k: int|
                0 <= k < rows@.len() && depends_on(#[trigger] rows@[k], proposed_group@, texts(dependencies@))
                    && rows@[k].group@ == g,
{
    let ghost deps = texts(dependencies@);
    let pg = proposed_group.to_owned();
    // The oldest matched operation's group.
    let mut best: Option<(i64, String)> = None;
    let n = rows.len();
    assert(rows@.skip(0) =~= rows@);
    for i in 0..n
        invariant
            n == rows@.len(),
            pg@ == proposed_group@,
            deps == texts(dependencies@),
            oldest_match(rows@, proposed_group@, deps, None) == oldest_match(
                rows@.skip(i as int),
                proposed_group@,
                deps,
                match best {
                    Some((id, g)) => Some((id, g@)),
                    None => None,
                },
            ),
    {
        let q = &rows[i];
        assert(rows@.skip(i as int)[0] == rows@[i as int]);
        assert(rows@.skip(i as int).drop_first() =~= rows@.skip(i + 1));
        let hit = q.group == pg || shares_entity(&q.entities, dependencies);
        let better = match &best {
            None => true,
            Some((id, _)) => q.id < *id,
        };
        if hit && better {
            best = Some((q.id, q.group.clone()));
        }
    }
    assert(rows@.skip(n as int) =~= Seq::<QueuedDeps>::empty());
    let chosen = match best {
        Some((_, g)) => g,
        None => pg,
    };
    // The other matched groups, each once.
    let mut merged: Vec<String> = Vec::new();
    for i in 0..n
        invariant
            n == rows@.len(),
            deps == texts(dependencies@),
            forall|a: int, b: int|
                0 <= a < b < merged@.len() ==> (#[trigger] merged@[a])@ != (#[trigger] merged@[b])@,
            forall|a: int| 0 <= a < merged@.len() ==> (#[trigger] merged@[a])@ != chosen@,
            forall|g: Seq<char>|
                texts(merged@).contains(g) <==> g != chosen@ && exists|k: int|
                    0 <= k < i && depends_on(#[trigger] rows@[k], proposed_group@, deps)
                        && rows@[k].group@ == g,
    {
        let q = &rows[i];
        let hit = q.group.as_str().to_owned() == proposed_group.to_owned() || shares_entity(
            &q.entities,
            dependencies,
        );
        let ghost before = merged@;
        if hit && !(q.group == chosen) && !crate::equalizer::naming::contains_key(&merged, &q.group) {
            merged.push(q.group.clone());
            assert forall|a: int, b: int| 0 <= a < b < merged@.len() implies (#[trigger] merged@[a])@
                != (#[trigger] merged@[b])@ by {
                if b == merged@.len() - 1 {
                    assert(texts(before)[a] == merged@[a]@);
                }
            }
        }
        assert forall|g: Seq<char>|
            texts(merged@).contains(g) <==> g != chosen@ && exists|k: int|
                0 <= k < i + 1 && depends_on(#[trigger] rows@[k], proposed_group@, deps)
                    && rows@[k].group@ == g by {
            if texts(merged@).contains(g) {
                let a = choose|a: int| 0 <= a < texts(merged@).len() && texts(merged@)[a] == g;
                if a < before.len() {
                    assert(texts(before)[a] == g);
                    assert(texts(before).contains(g));
                } else {
                    assert(depends_on(rows@[i as int], proposed_group@, deps));
                }
            }
            if g != chosen@ && exists|k: int|
                0 <= k < i + 1 && depends_on(#[trigger] rows@[k], proposed_group@, deps)
                    && rows@[k].group@ == g {
                let k = choose|k: int|
                    0 <= k < i + 1 && depends_on(#[trigger] rows@[k], proposed_group@, deps)
                        && rows@[k].group@ == g;
                if k < i {
                    assert(texts(before).contains(g));
                    let a = choose|a: int| 0 <= a < texts(before).len() && texts(before)[a] == g;
                    assert(texts(merged@)[a] == g);
                } else if crate::equalizer::naming::texts(before).contains(g) {
                    let a = choose|a: int| 0 <= a < texts(before).len() && texts(before)[a] == g;
                    assert(texts(merged@)[a] == g);
                } else {
                    assert(texts(merged@)[merged@.len() - 1] == g);
                }
            }
        }
    }
    (chosen, merged)
}

} // verus!
