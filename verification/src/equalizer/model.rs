//! Equalizer data model: profiles, device rules, selectors, routes and the
//! validation and normalisation rules they obey. Profile band data
//! (frequencies, gains, Q) is floating point: a profile holds it as an
//! opaque sound value that the application checks and formats.
use vstd::prelude::*;
use vstd::string::StringSliceAdditionalSpecFns;
use unicode_casefold::UnicodeCaseFold;
use unicode_normalization::UnicodeNormalization;

use crate::equalizer::resolver::ResolvedEqualizer;
use crate::numbers::{i64_string, i64_text, law_i64_text_round_trip, parse_i64, parse_i64_spec, IntErrorKind};
use crate::text::{
    ascii_lower_seq, chars_of, char_is_control, char_is_white_space, is_control, is_white_space,
    starts_with, starts_with_exec, slice_chars, string_from_chars, to_ascii_lower, trim, trim_ws,
    hex_digit, decimal_digits, decimal_string, push_all, push_str,
};

verus! {

pub const EQ_STATE_FORMAT_VERSION: u32 = 1;

pub const EQ_PROFILE_FORMAT_VERSION: u32 = 1;

pub const EQ_NORMALIZATION_VERSION: u32 = 1;

pub const MAX_PROFILES: usize = 64;

pub const MAX_RULES: usize = 64;

pub const MAX_SELECTORS_PER_RULE: usize = 8;

pub const MAX_BANDS: usize = 32;

pub const MAX_NAME_CHARS: usize = 100;

/// Lossless server revision token (an `i64` compare-and-swap value).
#[derive(Debug, Clone, Copy, PartialEq, Eq, Structural)]
pub struct Revision(pub i64);

impl Revision {
    /// The decimal text a revision travels as (so JavaScript never rounds
    /// it).
    pub fn to_string(&self) -> (r: String)
        ensures
            r@ == i64_text(self.0),
    {
        string_from_chars(&i64_string(self.0))
    }

    /// A revision from its decimal text.
    pub fn from_str(value: &str) -> (r: Result<Revision, IntErrorKind>)
        ensures
            r == match parse_i64_spec(value@) {
                Ok(n) => Ok::<Revision, IntErrorKind>(Revision(n)),
                Err(e) => Err(e),
            },
    {
        match parse_i64(&chars_of(value)) {
            Ok(n) => Ok(Revision(n)),
            Err(e) => Err(e),
        }
    }
}

/// A revision's text reads back as the same revision: the token is
/// lossless.
pub proof fn law_revision_text_round_trip(r: Revision)
    ensures
        parse_i64_spec(i64_text(r.0)) == Ok::<i64, IntErrorKind>(r.0),
{
    law_i64_text_round_trip(r.0);
}

/// Format version assumed for a stored profile that names none.
pub fn profile_format_version() -> (r: u32)
    ensures
        r == EQ_PROFILE_FORMAT_VERSION,
{
    EQ_PROFILE_FORMAT_VERSION
}

/// Default of a flag that is on unless stored otherwise.
pub fn default_true() -> (r: bool)
    ensures
        r,
{
    true
}

/// Normalization version assumed for a stored selector that names none.
pub fn normalization_version() -> (r: u32)
    ensures
        r == EQ_NORMALIZATION_VERSION,
{
    EQ_NORMALIZATION_VERSION
}

#[derive(Debug, Clone, Copy, PartialEq, Eq, Structural)]
pub enum FilterKind {
    Peaking,
}

/// A stored profile. `S` is its sound, the preamp gain and the bands: those
/// are floating point, checked and turned into text by the application; the
/// logic here carries them and never reads them.
#[derive(Debug, Clone)]
pub struct EqualizerProfile<S> {
    pub id: String,
    pub name: String,
    pub format_version: u32,
    pub sound: S,
    pub auto_headroom_enabled: bool,
    pub revision: Revision,
    pub created_at: String,
    pub updated_at: String,
}

/// A profile as a create or update sends it (no revision, no timestamps).
#[derive(Debug, Clone)]
pub struct EqualizerProfileInput<S> {
    pub id: String,
    pub name: String,
    pub format_version: u32,
    pub sound: S,
    pub auto_headroom_enabled: bool,
}

/// An account's equalizer state: its revisions, default profile, profiles
/// and device rules.
#[derive(Debug, Clone)]
pub struct EqualizerState<S> {
    pub state_format_version: u32,
    pub state_revision: Revision,
    pub settings_revision: Revision,
    pub default_profile_id: Option<String>,
    pub profiles: Vec<EqualizerProfile<S>>,
    pub device_rules: Vec<EqualizerDeviceRule>,
}

impl<S> Default for EqualizerState<S> {
    /// The empty state of the current format, at revision 0.
    fn default() -> (r: Self)
        ensures
            r.state_format_version == EQ_STATE_FORMAT_VERSION,
            r.state_revision == Revision(0),
            r.settings_revision == Revision(0),
            r.default_profile_id is None,
            r.profiles@.len() == 0,
            r.device_rules@.len() == 0,
    {
        EqualizerState {
            state_format_version: EQ_STATE_FORMAT_VERSION,
            state_revision: Revision(0),
            settings_revision: Revision(0),
            default_profile_id: None,
            profiles: Vec::new(),
            device_rules: Vec::new(),
        }
    }
}

/// What the server answers to a mutation: whether anything changed, the
/// audit entry, and the state afterwards.
#[derive(Debug, Clone)]
pub struct EqualizerMutationResponse<S> {
    pub changed: bool,
    pub audit_id: Option<String>,
    pub state: EqualizerState<S>,
}

/// A conditional state fetch: unchanged since the etag, or the new state.
#[derive(Debug, Clone)]
pub struct EqualizerStateFetch<S> {
    pub not_modified: bool,
    pub state: Option<EqualizerState<S>>,
    pub etag: Option<String>,
}

/// The device-local layer: profiles and rules kept on this device only.
#[derive(Debug, Clone)]
pub struct LocalEqualizerState<S> {
    pub default_profile_id: Option<String>,
    pub profiles: Vec<EqualizerProfile<S>>,
    pub device_rules: Vec<EqualizerDeviceRule>,
}

/// Everything the equalizer screen shows at once.
#[derive(Debug, Clone)]
pub struct EqualizerSnapshot<S> {
    pub support_state: SupportState,
    pub synced: EqualizerState<S>,
    pub local: LocalEqualizerState<S>,
    pub active_layer: ProfileLayer,
    pub preferences: LocalPreferences,
    pub resolved: ResolvedEqualizer,
    pub pending_count: i64,
    pub conflict_count: i64,
}

/// A decimal digit.
pub open spec fn is_digit_char(c: char) -> bool {
    '0' <= c && c <= '9'
}

/// The RFC 3339 text of a UTC date-time as `time` writes it:
/// `YYYY-MM-DDTHH:MM:SS`, then optionally `.` and one to nine fraction
/// digits, then `Z`.
pub open spec fn is_rfc3339_utc(s: Seq<char>) -> bool {
    &&& 20 <= s.len() <= 30
    &&& is_digit_char(s[0]) && is_digit_char(s[1]) && is_digit_char(s[2]) && is_digit_char(s[3])
    &&& s[4] == '-' && is_digit_char(s[5]) && is_digit_char(s[6])
    &&& s[7] == '-' && is_digit_char(s[8]) && is_digit_char(s[9])
    &&& s[10] == 'T' && is_digit_char(s[11]) && is_digit_char(s[12])
    &&& s[13] == ':' && is_digit_char(s[14]) && is_digit_char(s[15])
    &&& s[16] == ':' && is_digit_char(s[17]) && is_digit_char(s[18])
    &&& s[s.len() - 1] == 'Z'
    &&& s.len() == 20 || (s[19] == '.' && s.len() >= 22 && forall|i: int|
        20 <= i < s.len() - 1 ==> is_digit_char(#[trigger] s[i]))
}

/// `time::OffsetDateTime::now_utc()` formatted by `format` with the RFC 3339
/// description; `None` when formatting fails. Claimed, from the crate's
/// RFC 3339 formatter: a formatted UTC time has the form `is_rfc3339_utc`
/// (four-digit year, two-digit fields, the fraction only when nonzero, `Z`
/// for the UTC offset). It reads the clock, so which time is not claimed.
#[verifier::external_body]
fn format_now_rfc3339() -> (r: Option<String>)
    ensures
        r matches Some(t) ==> is_rfc3339_utc(t@),
{
    time::OffsetDateTime::now_utc().format(&time::format_description::well_known::Rfc3339).ok()
}

/// The current UTC time as RFC 3339 text, or the epoch when it cannot be
/// formatted.
pub fn now_string() -> (r: String)
    ensures
        is_rfc3339_utc(r@),
{
    match format_now_rfc3339() {
        Some(t) => t,
        None => {
            proof {
                reveal_strlit("1970-01-01T00:00:00Z");
            }
            string_from_chars(&chars_of("1970-01-01T00:00:00Z"))
        },
    }
}

impl FilterKind {
    pub fn as_str(self) -> (r: &'static str)
        ensures
            r@ == "peaking"@,
    {
        match self {
            FilterKind::Peaking => "peaking",
        }
    }

    /// Accepts `peaking`, `PK` or `pk`.
    pub fn from_str(value: &str) -> (r: Result<FilterKind, EqualizerValidationError>)
        ensures
            r is Ok <==> (value@ == "peaking"@ || value@ == "PK"@ || value@ == "pk"@),
            r matches Err(e) ==> e.message@ == "unsupported filter kind '"@ + value@ + "'"@,
    {
        let v = chars_of(value);
        if chars_eq_lit(&v, "peaking") || chars_eq_lit(&v, "PK") || chars_eq_lit(&v, "pk") {
            Ok(FilterKind::Peaking)
        } else {
            let mut m = chars_of("unsupported filter kind '");
            push_str(&mut m, value);
            push_str(&mut m, "'");
            Err(EqualizerValidationError { message: string_from_chars(&m) })
        }
    }
}

pub fn chars_eq_lit(v: &Vec<char>, lit: &str) -> (r: bool)
    ensures
        r == (v@ == lit@),
{
    let l = chars_of(lit);
    crate::text::chars_eq(v, &l)
}

#[derive(Debug, Clone, Copy, PartialEq, Eq, Structural)]
pub enum RouteKind {
    Bluetooth,
    Wired,
    Usb,
    Hdmi,
    Airplay,
    Builtin,
    Unknown,
}

#[derive(Debug, Clone, Copy, PartialEq, Eq, Structural)]
pub enum RouteAccuracy {
    Exact,
    Predicted,
    Default,
    ConnectedOnly,
    Unavailable,
}

#[derive(Debug, Clone, Copy, PartialEq, Eq, Structural)]
pub enum BindingStability {
    PersistentExact,
    SessionOnly,
    Unavailable,
}

#[derive(Debug, Clone, Copy, PartialEq, Eq, Structural)]
pub enum Platform {
    Windows,
    Android,
    Macos,
    Linux,
    Ios,
    Web,
}

#[derive(Debug, Clone, Copy, PartialEq, Eq, Structural)]
pub enum TriggerKind {
    ActiveOutput,
    Connected,
}

/// A portable description of an output device that a rule matches.
#[derive(Debug, Clone, PartialEq, Eq)]
pub struct PortableDeviceSelector {
    pub normalization_version: u32,
    pub route_kind: RouteKind,
    pub normalized_name: String,
    pub vendor_id: Option<String>,
    pub product_id: Option<String>,
    pub platform_scope: Option<Platform>,
    pub trigger: TriggerKind,
}

#[derive(Debug, Clone, PartialEq, Eq)]
pub enum RuleAction {
    Profile { profile_id: String },
    Bypass,
}

impl RuleAction {
    /// The profile a rule applies, if it applies one.
    pub open spec fn profile_id_spec(&self) -> Option<Seq<char>> {
        match self {
            RuleAction::Profile { profile_id } => Some(profile_id@),
            RuleAction::Bypass => None,
        }
    }

    pub fn profile_id(&self) -> (r: Option<&str>)
        ensures
            match r {
                Some(s) => self.profile_id_spec() == Some(s@),
                None => self.profile_id_spec() is None,
            },
    {
        match self {
            RuleAction::Profile { profile_id } => Some(profile_id.as_str()),
            RuleAction::Bypass => None,
        }
    }
}

#[derive(Debug, Clone, PartialEq, Eq)]
pub struct EqualizerDeviceRule {
    pub id: String,
    pub label: String,
    pub action: RuleAction,
    pub selectors: Vec<PortableDeviceSelector>,
    pub priority: i32,
    pub enabled: bool,
    pub revision: Revision,
}

#[derive(Debug, Clone, PartialEq, Eq)]
pub struct EqualizerDeviceRuleInput {
    pub id: String,
    pub label: String,
    pub action: RuleAction,
    pub selectors: Vec<PortableDeviceSelector>,
    pub enabled: bool,
}

impl EqualizerDeviceRuleInput {
    /// The input that recreates a rule (its id, label, action, selectors and
    /// enabled flag).
    pub fn from_rule(value: &EqualizerDeviceRule) -> (r: Self)
        ensures
            r.id == value.id,
            r.label == value.label,
            r.action == value.action,
            r.selectors@ == value.selectors@,
            r.enabled == value.enabled,
    {
        EqualizerDeviceRuleInput {
            id: value.id.clone(),
            label: value.label.clone(),
            action: crate::equalizer::ops::copy_action(&value.action),
            selectors: crate::equalizer::ops::copy_selectors(&value.selectors),
            enabled: value.enabled,
        }
    }
}

#[derive(Debug, Clone, PartialEq, Eq)]
pub struct EntityRevision {
    pub id: String,
    pub expected_revision: Revision,
}

#[derive(Debug, Clone, PartialEq, Eq)]
pub enum DeleteProfileDisposition {
    RejectIfReferenced,
    ReplaceWithProfile { profile_id: String },
    ReplaceWithFlat,
}

#[derive(Debug, Clone, PartialEq, Eq)]
pub struct DeleteProfileRequest {
    pub profile_id: String,
    pub expected_revision: Revision,
    pub expected_settings_revision: Revision,
    pub referencing_rules: Vec<EntityRevision>,
    pub disposition: DeleteProfileDisposition,
    pub local_binding_disposition: Option<ProfileTarget>,
}

#[derive(Debug, Clone, PartialEq, Eq)]
pub struct EqualizerChangeSummary {
    pub audit_id: String,
    pub action: String,
    pub actor_id: Option<String>,
    pub owner_id: String,
    pub resource_type: String,
    pub resource_id: Option<String>,
    pub created_at: String,
    pub before_state_revision: Revision,
    pub after_state_revision: Revision,
}

#[derive(Debug, Clone, PartialEq, Eq)]
pub struct ChangePage {
    pub changes: Vec<EqualizerChangeSummary>,
    pub next_cursor: Option<String>,
}

#[derive(Debug, Clone, PartialEq, Eq)]
pub struct EqualizerChangeDetail {
    pub change: EqualizerChangeSummary,
    pub before_json: Option<String>,
    pub after_json: Option<String>,
    pub current_state_revision: Option<Revision>,
    pub rollback_eligible: bool,
}

#[derive(Debug, Clone, PartialEq, Eq)]
pub struct EqualizerChangedResource {
    pub resource_type: String,
    pub resource_id: Option<String>,
    pub change: String,
}

#[derive(Debug, Clone, PartialEq, Eq)]
pub struct EqualizerRollbackResponse {
    pub target_owner_id: String,
    pub state_revision: Revision,
    pub audit_id: String,
    pub changed_resources: Vec<EqualizerChangedResource>,
}

#[derive(Debug, Clone, Copy, PartialEq, Eq, Structural)]
pub enum ProfileLayer {
    Synced,
    LocalOnly,
}

#[derive(Debug, Clone, PartialEq, Eq)]
pub struct ProfileTarget {
    pub layer: ProfileLayer,
    pub action: RuleAction,
}

#[derive(Debug, Clone, Copy, PartialEq, Eq, Structural)]
pub enum SupportState {
    Unknown,
    Supported,
    Unsupported,
    /// Endpoint exists, but this build cannot safely interpret its schema.
    FutureFormat,
}

#[derive(Debug, Clone, Copy, PartialEq, Eq, Structural)]
pub struct LocalPreferences {
    pub master_enabled: bool,
    pub automatic_switching_enabled: bool,
}

impl Default for LocalPreferences {
    /// Everything off until the user turns it on.
    fn default() -> (r: Self)
        ensures
            !r.master_enabled,
            !r.automatic_switching_enabled,
    {
        LocalPreferences { master_enabled: false, automatic_switching_enabled: false }
    }
}

impl Default for SupportState {
    /// Nothing known about the server until it is probed.
    fn default() -> (r: Self)
        ensures
            r == SupportState::Unknown,
    {
        SupportState::Unknown
    }
}

/// Native route descriptor. Per-unit identifiers stay inside the process;
/// only a keyed hash of them is ever persisted.
#[derive(Debug, Clone, PartialEq, Eq)]
pub struct AudioOutput {
    pub runtime_id: Option<String>,
    pub local_endpoint_key: Option<String>,
    pub display_name: String,
    pub route_kind: RouteKind,
    pub vendor_id: Option<String>,
    pub product_id: Option<String>,
    pub connected: bool,
    pub selected: bool,
    pub accuracy: RouteAccuracy,
    pub binding_stability: BindingStability,
}

#[derive(Debug, Clone, PartialEq, Eq)]
pub struct AudioOutputSummary {
    pub display_name: String,
    pub route_kind: RouteKind,
    pub accuracy: RouteAccuracy,
    pub binding_stability: BindingStability,
}

impl AudioOutputSummary {
    /// The redacted summary of an output (no native identifiers).
    pub open spec fn of(o: AudioOutput) -> AudioOutputSummary {
        AudioOutputSummary {
            display_name: o.display_name,
            route_kind: o.route_kind,
            accuracy: o.accuracy,
            binding_stability: o.binding_stability,
        }
    }

    pub fn from_output(o: &AudioOutput) -> (r: AudioOutputSummary)
        ensures
            r@ == AudioOutputSummary::of(*o)@,
    {
        AudioOutputSummary {
            display_name: o.display_name.clone(),
            route_kind: o.route_kind,
            accuracy: o.accuracy,
            binding_stability: o.binding_stability,
        }
    }
}

/// A summary viewed as plain values.
pub struct SummaryView {
    pub display_name: Seq<char>,
    pub route_kind: RouteKind,
    pub accuracy: RouteAccuracy,
    pub binding_stability: BindingStability,
}

impl View for AudioOutputSummary {
    type V = SummaryView;

    open spec fn view(&self) -> SummaryView {
        SummaryView {
            display_name: self.display_name@,
            route_kind: self.route_kind,
            accuracy: self.accuracy,
            binding_stability: self.binding_stability,
        }
    }
}

/// Private persistence-only binding of an exact endpoint to a target.
#[derive(Debug, Clone, PartialEq, Eq)]
pub struct ExactBinding {
    pub endpoint_key: String,
    pub display_label: Option<String>,
    pub target: ProfileTarget,
    pub orphaned: bool,
}

#[derive(Debug, Clone, Copy, PartialEq, Eq, Structural)]
pub enum ResolveReason {
    Disabled,
    Manual,
    LocalExact,
    PortableRule,
    ConnectedFallback,
    Default,
    Flat,
    Unsupported,
}

#[derive(Debug, Clone, PartialEq, Eq)]
pub struct EqualizerConflict {
    pub id: i64,
    pub dependency_group: String,
    pub op_type: String,
    pub entity_id: Option<String>,
    pub payload_json: String,
    pub base_revision: Option<Revision>,
    pub server_revision: Option<Revision>,
    pub error_code: String,
    pub error_message: String,
    pub created_at: String,
}

#[derive(Debug, Clone, PartialEq, Eq)]
pub struct PendingEqualizerOp {
    pub id: i64,
    pub operation_uuid: String,
    pub account_scope: String,
    pub op_type: String,
    pub entity_id: Option<String>,
    pub base_revision: Option<Revision>,
    pub dependency_group: String,
    pub payload_json: String,
    pub created_at: String,
    pub attempts: i64,
    pub last_error: Option<String>,
}

#[derive(Debug, Clone, PartialEq, Eq)]
pub struct EqualizerValidationError {
    pub message: String,
}

impl EqualizerValidationError {
    pub fn new(message: String) -> (r: Self)
        ensures
            r.message@ == message@,
    {
        EqualizerValidationError { message }
    }

    /// The error's text (what its `Display` shows).
    pub fn to_string(&self) -> (r: String)
        ensures
            r@ == self.message@,
    {
        self.message.clone()
    }
}

// ---------------------------------------------------------------------------
// Names
// ---------------------------------------------------------------------------

pub open spec fn name_length_message(field: Seq<char>) -> Seq<char> {
    field + " must contain 1 to "@ + decimal_digits(MAX_NAME_CHARS as nat) + " characters"@
}

pub open spec fn control_message(field: Seq<char>) -> Seq<char> {
    field + " contains a control character"@
}

/// The outcome of `validate_name`: `None` when the name is acceptable, else
/// the error message.
pub open spec fn name_error(value: Seq<char>, field: Seq<char>) -> Option<Seq<char>> {
    let t = trim_ws(value);
    if t.len() == 0 || t.len() > MAX_NAME_CHARS {
        Some(name_length_message(field))
    } else if exists|i: int| 0 <= i < t.len() && is_control(#[trigger] t[i]) {
        Some(control_message(field))
    } else {
        None
    }
}

/// A trimmed name must hold 1 to 100 characters and no control character.
pub fn validate_name(value: &str, field: &str) -> (r: Result<(), EqualizerValidationError>)
    ensures
        match r {
            Ok(()) => name_error(value@, field@) is None,
            Err(e) => name_error(value@, field@) == Some(e.message@),
        },
{
    let t = trim(&chars_of(value));
    if t.len() == 0 || t.len() > MAX_NAME_CHARS {
        let mut m = chars_of(field);
        push_str(&mut m, " must contain 1 to ");
        let d = decimal_string(MAX_NAME_CHARS as u64);
        push_all(&mut m, &d);
        push_str(&mut m, " characters");
        return Err(EqualizerValidationError { message: string_from_chars(&m) });
    }
    let n = t.len();
    for i in 0..n
        invariant
            n == t@.len(),
            t@ == trim_ws(value@),
            0 < n <= MAX_NAME_CHARS,
            forall|j: int| 0 <= j < i ==> !is_control(#[trigger] t@[j]),
    {
        if char_is_control(t[i]) {
            assert(is_control(t@[i as int]));
            let mut m = chars_of(field);
            push_str(&mut m, " contains a control character");
            return Err(EqualizerValidationError { message: string_from_chars(&m) });
        }
    }
    Ok(())
}

// ---------------------------------------------------------------------------
// Matcher normalisation
// ---------------------------------------------------------------------------

/// Unicode Normalization Form KC of a text.
pub uninterp spec fn nfkc(s: Seq<char>) -> Seq<char>;

/// Full default (non-Turkic) Unicode case folding of a text.
pub uninterp spec fn case_fold(s: Seq<char>) -> Seq<char>;

/// `UnicodeNormalization::nfkc` from `unicode-normalization`, collected into
/// a `String`. Claimed: the result is `nfkc` of the input, a function of the
/// input alone.
#[verifier::external_body]
fn to_nfkc(s: &str) -> (out: String)
    ensures
        out@ == nfkc(s@),
{
    s.nfkc().collect::<String>()
}

/// `UnicodeCaseFold::case_fold` from `unicode-casefold`, collected into a
/// `String`. Claimed: the result is `case_fold` of the input, a function of
/// the input alone.
#[verifier::external_body]
fn to_case_fold(s: &str) -> (out: String)
    ensures
        out@ == case_fold(s@),
{
    s.case_fold().collect::<String>()
}

/// `split_whitespace().collect::<Vec<_>>().join(" ")`: the words of `s`
/// separated by single spaces, with no leading or trailing whitespace.
pub open spec fn collapse_ws(s: Seq<char>) -> Seq<char>
    decreases s.len(),
{
    if s.len() == 0 {
        Seq::empty()
    } else if is_white_space(s.last()) {
        collapse_ws(s.drop_last())
    } else {
        let p = s.drop_last();
        let prev = collapse_ws(p);
        if prev.len() > 0 && p.len() > 0 && is_white_space(p.last()) {
            prev + seq![' ', s.last()]
        } else {
            prev.push(s.last())
        }
    }
}

fn collapse_ws_exec(v: &Vec<char>) -> (out: Vec<char>)
    ensures
        out@ == collapse_ws(v@),
{
    let mut out: Vec<char> = Vec::new();
    let n = v.len();
    for i in 0..n
        invariant
            n == v@.len(),
            out@ == collapse_ws(v@.take(i as int)),
    {
        let c = v[i];
        let ghost t = v@.take(i + 1);
        assert(t.drop_last() == v@.take(i as int));
        assert(t.last() == c);
        if !char_is_white_space(c) {
            if out.len() > 0 && i > 0 && char_is_white_space(v[i - 1]) {
                assert(v@.take(i as int).last() == v@[i - 1]);
                out.push(' ');
            }
            out.push(c);
        }
        proof {
            if i > 0 {
                assert(v@.take(i as int).last() == v@[i - 1]);
            }
        }
    }
    assert(v@.take(n as int) == v@);
    out
}

/// NFKC, then full case folding, then whitespace collapse.
pub open spec fn normalized_matcher(value: Seq<char>) -> Seq<char> {
    collapse_ws(case_fold(nfkc(value)))
}

/// NFKC + full default (non-Turkic) case folding + whitespace collapse.
pub fn normalize_matcher(value: &str) -> (out: String)
    ensures
        out@ == normalized_matcher(value@),
{
    let n = to_nfkc(value);
    let f = to_case_fold(n.as_str());
    let c = collapse_ws_exec(&chars_of(f.as_str()));
    string_from_chars(&c)
}

/// The key under which two names count as the same.
pub fn name_key(value: &str) -> (out: String)
    ensures
        out@ == normalized_matcher(trim_ws(value@)),
{
    let t = string_from_chars(&trim(&chars_of(value)));
    normalize_matcher(t.as_str())
}

/// Repeatedly strips a leading `0x`.
pub open spec fn strip_hex_prefixes(s: Seq<char>) -> Seq<char>
    decreases s.len(),
{
    if s.len() >= 2 && s[0] == '0' && s[1] == 'x' {
        strip_hex_prefixes(s.skip(2))
    } else {
        s
    }
}

/// A hardware id as compared: trimmed, without `0x` prefixes, lower case;
/// absent when blank.
pub open spec fn normalized_hardware_id(value: Option<Seq<char>>) -> Option<Seq<char>> {
    match value {
        Some(v) => if trim_ws(v).len() == 0 {
            None
        } else {
            Some(ascii_lower_seq(strip_hex_prefixes(trim_ws(v))))
        },
        None => None,
    }
}

pub fn normalize_hardware_id(value: Option<&str>) -> (r: Option<String>)
    ensures
        match r {
            Some(s) => normalized_hardware_id(
                match value {
                    Some(v) => Some(v@),
                    None => None,
                },
            ) == Some(s@),
            None => normalized_hardware_id(
                match value {
                    Some(v) => Some(v@),
                    None => None,
                },
            ) is None,
        },
{
    match value {
        None => None,
        Some(v) => {
            let t = trim(&chars_of(v));
            if t.len() == 0 {
                return None;
            }
            let mut k: usize = 0;
            assert(t@.skip(0) == t@);
            while t.len() - k >= 2 && t[k] == '0' && t[k + 1] == 'x'
                invariant
                    k <= t@.len(),
                    strip_hex_prefixes(t@) == strip_hex_prefixes(t@.skip(k as int)),
                decreases t.len() - k,
            {
                assert(t@.skip(k as int).skip(2) == t@.skip(k + 2));
                k = k + 2;
            }
            assert(t@.subrange(k as int, t@.len() as int) == t@.skip(k as int));
            let rest = slice_chars(&t, k, t.len());
            let l = to_ascii_lower(&rest);
            Some(string_from_chars(&l))
        },
    }
}

// ---------------------------------------------------------------------------
// UUID text
// ---------------------------------------------------------------------------

pub open spec fn is_hex_byte(b: u8) -> bool {
    hex_digit(b) is Some
}

/// `8-4-4-4-12` hex groups.
pub open spec fn is_hyphenated_uuid(s: Seq<u8>) -> bool {
    &&& s.len() == 36
    &&& forall|i: int|
        0 <= i < 36 ==> if i == 8 || i == 13 || i == 18 || i == 23 {
            #[trigger] s[i] == 45
        } else {
            is_hex_byte(s[i])
        }
}

/// The texts `uuid::Uuid::parse_str` accepts: 32 hex digits; the hyphenated
/// form; the hyphenated form in braces; or `urn:uuid:` (any case) followed
/// by the hyphenated form.
pub open spec fn is_uuid_text(s: Seq<u8>) -> bool {
    ||| (s.len() == 32 && forall|i: int| 0 <= i < 32 ==> is_hex_byte(#[trigger] s[i]))
    ||| is_hyphenated_uuid(s)
    ||| (s.len() == 38 && s[0] == 123 && s[37] == 125 && is_hyphenated_uuid(s.subrange(1, 37)))
    ||| (s.len() == 45 && ascii_lower_bytes(s.take(9)) == "urn:uuid:"@.map_values(|c: char| c as u8)
        && is_hyphenated_uuid(s.skip(9)))
}

pub open spec fn ascii_lower_bytes(s: Seq<u8>) -> Seq<u8> {
    s.map_values(|b: u8| if 65 <= b <= 90 { (b + 32) as u8 } else { b })
}

/// `uuid::Uuid::parse_str(s).is_ok()`. Claimed, from the crate's parser:
/// it succeeds exactly on the four textual forms of `is_uuid_text`.
#[verifier::external_body]
fn uuid_parses(s: &str) -> (r: bool)
    ensures
        r == is_uuid_text(s.spec_bytes()),
{
    uuid::Uuid::parse_str(s).is_ok()
}

// ---------------------------------------------------------------------------
// Rule validation
// ---------------------------------------------------------------------------

/// The first problem with a selector, if any.
pub open spec fn selector_error(sel: PortableDeviceSelector) -> Option<Seq<char>> {
    if sel.normalization_version != EQ_NORMALIZATION_VERSION {
        Some("unsupported selector normalization version"@)
    } else if name_error(sel.normalized_name@, "device matcher"@) is Some {
        name_error(sel.normalized_name@, "device matcher"@)
    } else if normalized_matcher(sel.normalized_name@) != sel.normalized_name@ {
        Some("device matcher is not canonically normalized"@)
    } else {
        None
    }
}

/// The first problem with the selectors `sels[from..]`, if any.
pub open spec fn selectors_error(sels: Seq<PortableDeviceSelector>, from: int) -> Option<Seq<char>>
    decreases sels.len() - from,
{
    if from >= sels.len() || from < 0 {
        None
    } else if selector_error(sels[from]) is Some {
        selector_error(sels[from])
    } else {
        selectors_error(sels, from + 1)
    }
}

/// The outcome of `validate_rule` as an optional error message.
pub open spec fn rule_error(rule: EqualizerDeviceRule) -> Option<Seq<char>> {
    if name_error(rule.label@, "rule label"@) is Some {
        name_error(rule.label@, "rule label"@)
    } else if !is_uuid_text(vstd::utf8::encode_utf8(rule.id@)) {
        Some("rule id must be a UUID"@)
    } else if rule.selectors@.len() == 0 || rule.selectors@.len() > MAX_SELECTORS_PER_RULE {
        Some("rule must contain 1 to "@ + decimal_digits(MAX_SELECTORS_PER_RULE as nat)
            + " selectors"@)
    } else {
        selectors_error(rule.selectors@, 0)
    }
}

fn message(s: &str) -> (e: EqualizerValidationError)
    ensures
        e.message@ == s@,
{
    EqualizerValidationError { message: string_from_chars(&chars_of(s)) }
}

/// Checks a device rule: label, UUID id, 1 to 8 selectors, each of the
/// current normalisation version with a valid, canonically normalised name.
pub fn validate_rule(rule: &EqualizerDeviceRule) -> (r: Result<(), EqualizerValidationError>)
    ensures
        match r {
            Ok(()) => rule_error(*rule) is None,
            Err(e) => rule_error(*rule) == Some(e.message@),
        },
{
    validate_name(rule.label.as_str(), "rule label")?;
    if !uuid_parses(rule.id.as_str()) {
        return Err(message("rule id must be a UUID"));
    }
    let n = rule.selectors.len();
    if n == 0 || n > MAX_SELECTORS_PER_RULE {
        let mut m = chars_of("rule must contain 1 to ");
        let d = decimal_string(MAX_SELECTORS_PER_RULE as u64);
        push_all(&mut m, &d);
        push_str(&mut m, " selectors");
        return Err(EqualizerValidationError { message: string_from_chars(&m) });
    }
    for i in 0..n
        invariant
            n == rule.selectors@.len(),
            1 <= n <= MAX_SELECTORS_PER_RULE,
            name_error(rule.label@, "rule label"@) is None,
            is_uuid_text(vstd::utf8::encode_utf8(rule.id@)),
            selectors_error(rule.selectors@, 0) == selectors_error(rule.selectors@, i as int),
    {
        let sel = &rule.selectors[i];
        if sel.normalization_version != EQ_NORMALIZATION_VERSION {
            return Err(message("unsupported selector normalization version"));
        }
        validate_name(sel.normalized_name.as_str(), "device matcher")?;
        let canon = normalize_matcher(sel.normalized_name.as_str());
        if !crate::text::chars_eq(&chars_of(canon.as_str()), &chars_of(sel.normalized_name.as_str())) {
            return Err(message("device matcher is not canonically normalized"));
        }
    }
    assert(selectors_error(rule.selectors@, n as int) is None);
    Ok(())
}

// ---------------------------------------------------------------------------
// Profile checks that need no band values
// ---------------------------------------------------------------------------

/// The first failing check on a profile's name, id and format version.
pub open spec fn profile_header_error(name: Seq<char>, id: Seq<char>, format_version: u32) -> Option<
    Seq<char>,
> {
    if name_error(name, "profile name"@) is Some {
        name_error(name, "profile name"@)
    } else if !is_uuid_text(vstd::utf8::encode_utf8(id)) {
        Some("profile id must be a UUID"@)
    } else if format_version != EQ_PROFILE_FORMAT_VERSION {
        Some("unsupported profile format version "@ + decimal_digits(format_version as nat))
    } else {
        None
    }
}

/// A profile's name (1 to 100 characters, no control character), UUID id
/// and format version. The preamp and band values are checked by the
/// application.
pub fn validate_profile_header(name: &str, id: &str, format_version: u32) -> (r: Result<
    (),
    EqualizerValidationError,
>)
    ensures
        match r {
            Ok(()) => profile_header_error(name@, id@, format_version) is None,
            Err(e) => profile_header_error(name@, id@, format_version) == Some(e.message@),
        },
{
    validate_name(name, "profile name")?;
    if !uuid_parses(id) {
        return Err(message("profile id must be a UUID"));
    }
    if format_version != EQ_PROFILE_FORMAT_VERSION {
        let mut m = chars_of("unsupported profile format version ");
        let d = decimal_string(format_version as u64);
        push_all(&mut m, &d);
        return Err(EqualizerValidationError { message: string_from_chars(&m) });
    }
    Ok(())
}

/// A profile holds 1 to `MAX_BANDS` bands.
pub fn validate_band_count(count: usize) -> (r: Result<(), EqualizerValidationError>)
    ensures
        match r {
            Ok(()) => 1 <= count <= MAX_BANDS,
            Err(e) => !(1 <= count <= MAX_BANDS) && e.message@ == "profile must contain 1 to "@
                + decimal_digits(MAX_BANDS as nat) + " bands"@,
        },
{
    if count == 0 || count > MAX_BANDS {
        let mut m = chars_of("profile must contain 1 to ");
        let d = decimal_string(MAX_BANDS as u64);
        push_all(&mut m, &d);
        push_str(&mut m, " bands");
        return Err(EqualizerValidationError { message: string_from_chars(&m) });
    }
    Ok(())
}

/// Band `index` (0-based) sits at position `index + 1` and is a peaking
/// filter.
pub fn validate_band_shape(index: usize, position: u32, kind: FilterKind) -> (r: Result<
    (),
    EqualizerValidationError,
>)
    requires
        index < MAX_BANDS,
    ensures
        match r {
            Ok(()) => position == index + 1 && kind == FilterKind::Peaking,
            Err(e) => position != index + 1 && e.message@
                == "band positions must be contiguous from 1 (expected "@ + decimal_digits(
                (index + 1) as nat,
            ) + ", got "@ + decimal_digits(position as nat) + ")"@,
        },
{
    let expected: u32 = (index + 1) as u32;
    if position != expected {
        let mut m = chars_of("band positions must be contiguous from 1 (expected ");
        let d = decimal_string(expected as u64);
        push_all(&mut m, &d);
        push_str(&mut m, ", got ");
        let g = decimal_string(position as u64);
        push_all(&mut m, &g);
        push_str(&mut m, ")");
        return Err(EqualizerValidationError { message: string_from_chars(&m) });
    }
    match kind {
        FilterKind::Peaking => Ok(()),
    }
}

} // verus!
