//! Pure deterministic effective-profile resolver.
//!
//! Precedence: an unreadable (future-format) state resolves flat; the master
//! switch off resolves flat; a manual override wins; with automatic switching
//! on, an exact endpoint binding, then the best portable rule for the active
//! output, then the best rule for any connected output; finally the layer's
//! default profile, or flat. Profiles are referred to by their index in the
//! layer's profile list.
use vstd::prelude::*;

use crate::equalizer::model::{
    normalize_hardware_id, normalize_matcher, normalized_hardware_id, normalized_matcher,
    AudioOutput, AudioOutputSummary, EqualizerDeviceRule, EqualizerProfile, EqualizerState,
    ExactBinding, LocalEqualizerState, LocalPreferences,
    Platform, PortableDeviceSelector, ProfileLayer, ProfileTarget, ResolveReason, Revision,
    RouteAccuracy, RuleAction, SummaryView, SupportState, TriggerKind, EQ_NORMALIZATION_VERSION,
};

verus! {

/// What the resolver reads of one profile layer (synced or local-only).
pub struct ResolverLayer {
    pub default_profile_id: Option<String>,
    /// Ids of the layer's profiles, in the layer's order.
    pub profile_ids: Vec<String>,
    pub device_rules: Vec<EqualizerDeviceRule>,
}

/// The ids of a list of profiles, in order.
pub open spec fn ids_of<S>(ps: Seq<EqualizerProfile<S>>) -> Seq<String> {
    ps.map_values(|p: EqualizerProfile<S>| p.id)
}

fn profile_ids_of<S>(ps: &Vec<EqualizerProfile<S>>) -> (out: Vec<String>)
    ensures
        out@ == ids_of(ps@),
{
    let mut out: Vec<String> = Vec::new();
    let n = ps.len();
    for i in 0..n
        invariant
            n == ps@.len(),
            out@ == ids_of(ps@.take(i as int)),
    {
        out.push(ps[i].id.clone());
        assert(ids_of(ps@.take(i + 1)) =~= ids_of(ps@.take(i as int)).push(ps@[i as int].id));
    }
    assert(ps@.take(n as int) =~= ps@);
    out
}

impl ResolverLayer {
    /// The synced layer as the resolver reads it.
    pub fn from_synced<S>(state: EqualizerState<S>) -> (r: ResolverLayer)
        ensures
            r.default_profile_id == state.default_profile_id,
            r.profile_ids@ == ids_of(state.profiles@),
            r.device_rules == state.device_rules,
    {
        let profile_ids = profile_ids_of(&state.profiles);
        ResolverLayer {
            default_profile_id: state.default_profile_id,
            profile_ids,
            device_rules: state.device_rules,
        }
    }

    /// The device-local layer as the resolver reads it.
    pub fn from_local<S>(local: LocalEqualizerState<S>) -> (r: ResolverLayer)
        ensures
            r.default_profile_id == local.default_profile_id,
            r.profile_ids@ == ids_of(local.profiles@),
            r.device_rules == local.device_rules,
    {
        let profile_ids = profile_ids_of(&local.profiles);
        ResolverLayer {
            default_profile_id: local.default_profile_id,
            profile_ids,
            device_rules: local.device_rules,
        }
    }
}

pub struct ResolveInput<'a> {
    pub preferences: &'a LocalPreferences,
    pub support_state: SupportState,
    pub synced: &'a ResolverLayer,
    pub synced_state_revision: Revision,
    pub local: &'a ResolverLayer,
    pub manual_override: Option<&'a ProfileTarget>,
    pub exact_bindings: &'a [ExactBinding],
    pub outputs: &'a [AudioOutput],
    pub scope_epoch: Revision,
    pub resolution_generation: Revision,
    /// The platform this process runs on, for platform-scoped selectors.
    pub platform: Option<Platform>,
}

/// The effective equalizer: which profile (index into the profile list of
/// `layer`), why, and the output it was chosen for.
#[derive(Debug, Clone, PartialEq, Eq)]
pub struct ResolvedEqualizer {
    pub profile: Option<usize>,
    pub layer: Option<ProfileLayer>,
    pub reason: ResolveReason,
    pub output_summary: Option<AudioOutputSummary>,
    pub state_revision: Revision,
    pub scope_epoch: Revision,
    pub resolution_generation: Revision,
}

/// An intermediate resolution, before the output summary default and the
/// revisions are attached.
pub struct Resolution {
    pub profile: Option<usize>,
    pub layer: Option<ProfileLayer>,
    pub reason: ResolveReason,
    pub output_summary: Option<AudioOutputSummary>,
}

pub struct ResolutionView {
    pub profile: Option<usize>,
    pub layer: Option<ProfileLayer>,
    pub reason: ResolveReason,
    pub output_summary: Option<SummaryView>,
}

impl View for Resolution {
    type V = ResolutionView;

    open spec fn view(&self) -> ResolutionView {
        ResolutionView {
            profile: self.profile,
            layer: self.layer,
            reason: self.reason,
            output_summary: match self.output_summary {
                Some(s) => Some(s@),
                None => None,
            },
        }
    }
}

impl View for ResolvedEqualizer {
    type V = (ResolutionView, Revision, Revision, Revision);

    open spec fn view(&self) -> (ResolutionView, Revision, Revision, Revision) {
        (
            ResolutionView {
                profile: self.profile,
                layer: self.layer,
                reason: self.reason,
                output_summary: match self.output_summary {
                    Some(s) => Some(s@),
                    None => None,
                },
            },
            self.state_revision,
            self.scope_epoch,
            self.resolution_generation,
        )
    }
}

/// A rule that matched an output, by index, with the specificity of its
/// best matching selector.
#[derive(Debug, Clone, Copy, PartialEq, Eq, Structural)]
pub struct MatchedRule {
    pub index: usize,
    pub specificity: u8,
}

// ---------------------------------------------------------------------------
// Specification
// ---------------------------------------------------------------------------

pub open spec fn flat(reason: ResolveReason) -> ResolutionView {
    ResolutionView { profile: None, layer: None, reason, output_summary: None }
}

pub open spec fn with_summary(r: ResolutionView, o: AudioOutput) -> ResolutionView {
    ResolutionView { output_summary: Some(AudioOutputSummary::of(o)@), ..r }
}

pub open spec fn layer_of<'a>(
    layer: ProfileLayer,
    synced: &'a ResolverLayer,
    local: &'a ResolverLayer,
) -> &'a ResolverLayer {
    match layer {
        ProfileLayer::Synced => synced,
        ProfileLayer::LocalOnly => local,
    }
}

/// Index of the first id equal to `id` in `ids[from..]`.
pub open spec fn first_id_index(ids: Seq<String>, id: Seq<char>, from: int) -> Option<int>
    decreases ids.len() - from,
{
    if from < 0 || from >= ids.len() {
        None
    } else if ids[from]@ == id {
        Some(from)
    } else {
        first_id_index(ids, id, from + 1)
    }
}

/// Resolving a target (`None` = bypass) on a layer: the profile when the
/// layer has it, flat otherwise.
pub open spec fn target_spec(
    layer: ProfileLayer,
    profile_id: Option<Seq<char>>,
    synced: &ResolverLayer,
    local: &ResolverLayer,
    reason: ResolveReason,
) -> ResolutionView {
    match profile_id {
        None => flat(reason),
        Some(id) => match first_id_index(layer_of(layer, synced, local).profile_ids@, id, 0) {
            None => flat(ResolveReason::Flat),
            Some(i) => ResolutionView {
                profile: Some(i as usize),
                layer: Some(layer),
                reason,
                output_summary: None,
            },
        },
    }
}

pub open spec fn selector_specificity_spec(s: PortableDeviceSelector) -> u8 {
    if s.vendor_id.is_some() && s.product_id.is_some() && s.normalized_name@.len() > 0 {
        3
    } else if s.normalized_name@.len() > 0 {
        2
    } else {
        1
    }
}

pub open spec fn opt_view(o: Option<String>) -> Option<Seq<char>> {
    match o {
        Some(s) => Some(s@),
        None => None,
    }
}

/// A selector matches an output when versions, route kinds and normalised
/// names agree, its platform scope (if any) is this platform, and each
/// hardware id it names equals the output's, both normalised.
pub open spec fn selector_matches_spec(
    s: PortableDeviceSelector,
    o: AudioOutput,
    platform: Option<Platform>,
) -> bool {
    &&& s.normalization_version == EQ_NORMALIZATION_VERSION
    &&& s.route_kind == o.route_kind
    &&& s.normalized_name@ == normalized_matcher(o.display_name@)
    &&& (s.platform_scope matches Some(p) ==> Some(p) == platform)
    &&& (s.vendor_id matches Some(v) ==> normalized_hardware_id(Some(v@)) == normalized_hardware_id(
        opt_view(o.vendor_id),
    ))
    &&& (s.product_id matches Some(v) ==> normalized_hardware_id(Some(v@))
        == normalized_hardware_id(opt_view(o.product_id)))
}

/// Highest specificity among `sels[..n]` matching `o` for `trigger`.
pub open spec fn max_specificity(
    sels: Seq<PortableDeviceSelector>,
    o: AudioOutput,
    trigger: TriggerKind,
    platform: Option<Platform>,
    n: int,
) -> Option<u8>
    decreases n,
{
    if n <= 0 || n > sels.len() {
        None
    } else {
        let prev = max_specificity(sels, o, trigger, platform, n - 1);
        let s = sels[n - 1];
        if s.trigger == trigger && selector_matches_spec(s, o, platform) {
            let x = selector_specificity_spec(s);
            match prev {
                None => Some(x),
                Some(p) => Some(
                    if p >= x {
                        p
                    } else {
                        x
                    },
                ),
            }
        } else {
            prev
        }
    }
}

/// How well a rule matches an output: `None` when disabled or no selector
/// applies.
pub open spec fn rule_match(
    r: EqualizerDeviceRule,
    o: AudioOutput,
    trigger: TriggerKind,
    platform: Option<Platform>,
) -> Option<u8> {
    if !r.enabled {
        None
    } else {
        max_specificity(r.selectors@, o, trigger, platform, r.selectors@.len() as int)
    }
}

/// Lexicographic order of character sequences (code point order, which is
/// also the byte order of their UTF-8).
pub open spec fn seq_less(a: Seq<char>, b: Seq<char>) -> bool
    decreases a.len(),
{
    if a.len() == 0 {
        b.len() > 0
    } else if b.len() == 0 {
        false
    } else if a[0] != b[0] {
        a[0] < b[0]
    } else {
        seq_less(a.drop_first(), b.drop_first())
    }
}

proof fn lemma_seq_less_asym(a: Seq<char>, b: Seq<char>)
    ensures
        seq_less(a, b) ==> !seq_less(b, a),
    decreases a.len(),
{
    if a.len() > 0 && b.len() > 0 && a[0] == b[0] {
        lemma_seq_less_asym(a.drop_first(), b.drop_first());
    }
}

/// Ranking is asymmetric: two matches never rank above each other.
pub proof fn lemma_ranks_above_asym(rules: Seq<EqualizerDeviceRule>, l: MatchedRule, r: MatchedRule)
    requires
        l.index < rules.len(),
        r.index < rules.len(),
    ensures
        ranks_above(rules, l, r) ==> !ranks_above(rules, r, l),
{
    lemma_seq_less_asym(rules[l.index as int].id@, rules[r.index as int].id@);
}

/// `left` ranks above `right`: higher priority, then higher specificity,
/// then the lexicographically smaller rule id.
pub open spec fn ranks_above(
    rules: Seq<EqualizerDeviceRule>,
    left: MatchedRule,
    right: MatchedRule,
) -> bool {
    let l = rules[left.index as int];
    let r = rules[right.index as int];
    ||| l.priority > r.priority
    ||| (l.priority == r.priority && left.specificity > right.specificity)
    ||| (l.priority == r.priority && left.specificity == right.specificity && seq_less(
        l.id@,
        r.id@,
    ))
}

/// `Iterator::max_by` over `rules[..n]`: a later candidate replaces the
/// current best unless the best ranks strictly above it.
pub open spec fn best_rule_upto(
    rules: Seq<EqualizerDeviceRule>,
    o: AudioOutput,
    trigger: TriggerKind,
    platform: Option<Platform>,
    n: int,
) -> Option<MatchedRule>
    decreases n,
{
    if n <= 0 || n > rules.len() {
        None
    } else {
        let prev = best_rule_upto(rules, o, trigger, platform, n - 1);
        match rule_match(rules[n - 1], o, trigger, platform) {
            None => prev,
            Some(sp) => {
                let cand = MatchedRule { index: (n - 1) as usize, specificity: sp };
                match prev {
                    None => Some(cand),
                    Some(b) => if ranks_above(rules, b, cand) {
                        Some(b)
                    } else {
                        Some(cand)
                    },
                }
            },
        }
    }
}

pub open spec fn best_rule_spec(
    rules: Seq<EqualizerDeviceRule>,
    o: AudioOutput,
    trigger: TriggerKind,
    platform: Option<Platform>,
) -> Option<MatchedRule> {
    best_rule_upto(rules, o, trigger, platform, rules.len() as int)
}

/// The best connected-trigger match over the connected outputs
/// `outputs[..n]`, with the index of the output it matched.
pub open spec fn best_connected_upto(
    rules: Seq<EqualizerDeviceRule>,
    outputs: Seq<AudioOutput>,
    platform: Option<Platform>,
    n: int,
) -> Option<(MatchedRule, int)>
    decreases n,
{
    if n <= 0 || n > outputs.len() {
        None
    } else {
        let prev = best_connected_upto(rules, outputs, platform, n - 1);
        let o = outputs[n - 1];
        if !o.connected {
            prev
        } else {
            match best_rule_spec(rules, o, TriggerKind::Connected, platform) {
                None => prev,
                Some(m) => match prev {
                    None => Some((m, n - 1)),
                    Some((b, bi)) => if ranks_above(rules, b, m) {
                        Some((b, bi))
                    } else {
                        Some((m, n - 1))
                    },
                },
            }
        }
    }
}

/// Resolution through a rule's action on `layer`.
pub open spec fn rule_spec(
    layer: ProfileLayer,
    rule: EqualizerDeviceRule,
    synced: &ResolverLayer,
    local: &ResolverLayer,
    reason: ResolveReason,
) -> ResolutionView {
    target_spec(layer, rule.action.profile_id_spec(), synced, local, reason)
}

pub open spec fn connected_fallback_spec(
    input: ResolveInput,
    layer: ProfileLayer,
) -> Option<ResolutionView> {
    let rules = layer_of(layer, input.synced, input.local).device_rules@;
    match best_connected_upto(rules, input.outputs@, input.platform, input.outputs@.len() as int) {
        None => None,
        Some((m, oi)) => Some(
            with_summary(
                rule_spec(
                    layer,
                    rules[m.index as int],
                    input.synced,
                    input.local,
                    ResolveReason::ConnectedFallback,
                ),
                input.outputs@[oi],
            ),
        ),
    }
}

/// Index of the first binding for `key` that is not orphaned.
pub open spec fn first_binding(bindings: Seq<ExactBinding>, key: Seq<char>, from: int) -> Option<
    int,
>
    decreases bindings.len() - from,
{
    if from < 0 || from >= bindings.len() {
        None
    } else if bindings[from].endpoint_key@ == key && !bindings[from].orphaned {
        Some(from)
    } else {
        first_binding(bindings, key, from + 1)
    }
}

/// Index of the first selected output.
pub open spec fn first_selected(outputs: Seq<AudioOutput>, from: int) -> Option<int>
    decreases outputs.len() - from,
{
    if from < 0 || from >= outputs.len() {
        None
    } else if outputs[from].selected {
        Some(from)
    } else {
        first_selected(outputs, from + 1)
    }
}

pub open spec fn is_reliable(a: RouteAccuracy) -> bool {
    a == RouteAccuracy::Exact || a == RouteAccuracy::Predicted || a == RouteAccuracy::Default
}

pub open spec fn automatic_spec(input: ResolveInput, layer: ProfileLayer) -> Option<ResolutionView> {
    match first_selected(input.outputs@, 0) {
        None => connected_fallback_spec(input, layer),
        Some(k) => {
            let o = input.outputs@[k];
            let rules = layer_of(layer, input.synced, input.local).device_rules@;
            if is_reliable(o.accuracy) {
                match (
                    match o.local_endpoint_key {
                        Some(key) => first_binding(input.exact_bindings@, key@, 0),
                        None => None,
                    }
                ) {
                    Some(bi) => {
                        let t = input.exact_bindings@[bi].target;
                        Some(
                            with_summary(
                                target_spec(
                                    t.layer,
                                    t.action.profile_id_spec(),
                                    input.synced,
                                    input.local,
                                    ResolveReason::LocalExact,
                                ),
                                o,
                            ),
                        )
                    },
                    None => match best_rule_spec(
                        rules,
                        o,
                        TriggerKind::ActiveOutput,
                        input.platform,
                    ) {
                        Some(m) => Some(
                            with_summary(
                                rule_spec(
                                    layer,
                                    rules[m.index as int],
                                    input.synced,
                                    input.local,
                                    ResolveReason::PortableRule,
                                ),
                                o,
                            ),
                        ),
                        None => None,
                    },
                }
            } else {
                connected_fallback_spec(input, layer)
            }
        },
    }
}

pub open spec fn default_spec(
    layer: ProfileLayer,
    synced: &ResolverLayer,
    local: &ResolverLayer,
) -> ResolutionView {
    match layer_of(layer, synced, local).default_profile_id {
        None => flat(ResolveReason::Flat),
        Some(id) => target_spec(layer, Some(id@), synced, local, ResolveReason::Default),
    }
}

pub open spec fn active_layer(support: SupportState) -> ProfileLayer {
    if support == SupportState::Supported {
        ProfileLayer::Synced
    } else {
        ProfileLayer::LocalOnly
    }
}

/// The resolution before the selected output's summary is filled in.
pub open spec fn resolution_spec(input: ResolveInput) -> ResolutionView {
    let layer = active_layer(input.support_state);
    if input.support_state == SupportState::FutureFormat {
        flat(ResolveReason::Unsupported)
    } else if !input.preferences.master_enabled {
        flat(ResolveReason::Disabled)
    } else if input.manual_override is Some {
        let t = input.manual_override->0;
        target_spec(t.layer, t.action.profile_id_spec(), input.synced, input.local, ResolveReason::Manual)
    } else if input.preferences.automatic_switching_enabled {
        match automatic_spec(input, layer) {
            Some(r) => r,
            None => default_spec(layer, input.synced, input.local),
        }
    } else {
        default_spec(layer, input.synced, input.local)
    }
}

/// The full resolved state.
pub open spec fn resolve_spec(input: ResolveInput) -> (ResolutionView, Revision, Revision, Revision) {
    let r = resolution_spec(input);
    let summary = match r.output_summary {
        Some(s) => Some(s),
        None => match first_selected(input.outputs@, 0) {
            Some(k) => Some(AudioOutputSummary::of(input.outputs@[k])@),
            None => None,
        },
    };
    (
        ResolutionView { output_summary: summary, ..r },
        input.synced_state_revision,
        input.scope_epoch,
        input.resolution_generation,
    )
}

// ---------------------------------------------------------------------------
// Implementation
// ---------------------------------------------------------------------------

impl Resolution {
    pub fn flat(reason: ResolveReason) -> (r: Resolution)
        ensures
            r@ == flat(reason),
    {
        Resolution { profile: None, layer: None, reason, output_summary: None }
    }
}

fn find_profile(ids: &Vec<String>, id: &String) -> (r: Option<usize>)
    ensures
        match r {
            None => first_id_index(ids@, id@, 0) is None,
            Some(i) => first_id_index(ids@, id@, 0) == Some(i as int),
        },
{
    let n = ids.len();
    for i in 0..n
        invariant
            n == ids@.len(),
            first_id_index(ids@, id@, 0) == first_id_index(ids@, id@, i as int),
    {
        if ids[i] == *id {
            return Some(i);
        }
    }
    None
}

fn pick_layer<'a>(layer: ProfileLayer, synced: &'a ResolverLayer, local: &'a ResolverLayer) -> (r:
    &'a ResolverLayer)
    ensures
        r == layer_of(layer, synced, local),
{
    match layer {
        ProfileLayer::Synced => synced,
        ProfileLayer::LocalOnly => local,
    }
}

fn resolve_target(
    layer: ProfileLayer,
    action: &RuleAction,
    synced: &ResolverLayer,
    local: &ResolverLayer,
    reason: ResolveReason,
) -> (r: Resolution)
    ensures
        r@ == target_spec(layer, action.profile_id_spec(), synced, local, reason),
{
    match action {
        RuleAction::Bypass => Resolution::flat(reason),
        RuleAction::Profile { profile_id } => {
            let l = pick_layer(layer, synced, local);
            match find_profile(&l.profile_ids, profile_id) {
                None => Resolution::flat(ResolveReason::Flat),
                Some(i) => Resolution { profile: Some(i), layer: Some(layer), reason, output_summary: None },
            }
        },
    }
}

fn resolve_default(layer: ProfileLayer, synced: &ResolverLayer, local: &ResolverLayer) -> (r:
    Resolution)
    ensures
        r@ == default_spec(layer, synced, local),
{
    let l = pick_layer(layer, synced, local);
    match &l.default_profile_id {
        None => Resolution::flat(ResolveReason::Flat),
        Some(id) => {
            let action = RuleAction::Profile { profile_id: id.clone() };
            resolve_target(layer, &action, synced, local, ResolveReason::Default)
        },
    }
}

/// How specific a selector is: vendor+product+name 3, name 2, otherwise 1.
pub fn selector_specificity(selector: &PortableDeviceSelector) -> (r: u8)
    ensures
        r == selector_specificity_spec(*selector),
{
    let has_ids = selector.vendor_id.is_some() && selector.product_id.is_some();
    let has_name = !selector.normalized_name.as_str().is_empty();
    if has_ids && has_name {
        3
    } else if has_name {
        2
    } else {
        1
    }
}

fn opt_str_eq(a: &Option<String>, b: &Option<String>) -> (r: bool)
    ensures
        r == (opt_view(*a) == opt_view(*b)),
{
    match (a, b) {
        (None, None) => true,
        (Some(x), Some(y)) => *x == *y,
        _ => false,
    }
}

fn as_opt_str(o: &Option<String>) -> (r: Option<&str>)
    ensures
        match r {
            Some(s) => opt_view(*o) == Some(s@),
            None => o.is_none(),
        },
{
    match o {
        Some(s) => Some(s.as_str()),
        None => None,
    }
}

/// Does `selector` describe `output` on `platform`?
pub fn selector_matches(
    selector: &PortableDeviceSelector,
    output: &AudioOutput,
    platform: Option<Platform>,
) -> (r: bool)
    ensures
        r == selector_matches_spec(*selector, *output, platform),
{
    if selector.normalization_version != EQ_NORMALIZATION_VERSION || selector.route_kind
        != output.route_kind {
        return false;
    }
    let name = normalize_matcher(output.display_name.as_str());
    if selector.normalized_name != name {
        return false;
    }
    if let Some(p) = selector.platform_scope {
        match platform {
            Some(q) => {
                if p != q {
                    return false;
                }
            },
            None => return false,
        }
    }
    let output_vendor = normalize_hardware_id(as_opt_str(&output.vendor_id));
    let output_product = normalize_hardware_id(as_opt_str(&output.product_id));
    let vendor_ok = match &selector.vendor_id {
        None => true,
        Some(v) => opt_str_eq(&normalize_hardware_id(Some(v.as_str())), &output_vendor),
    };
    let product_ok = match &selector.product_id {
        None => true,
        Some(v) => opt_str_eq(&normalize_hardware_id(Some(v.as_str())), &output_product),
    };
    vendor_ok && product_ok
}

fn rule_match_exec(
    rule: &EqualizerDeviceRule,
    output: &AudioOutput,
    trigger: TriggerKind,
    platform: Option<Platform>,
) -> (r: Option<u8>)
    ensures
        r == rule_match(*rule, *output, trigger, platform),
{
    if !rule.enabled {
        return None;
    }
    let mut best: Option<u8> = None;
    let n = rule.selectors.len();
    for i in 0..n
        invariant
            n == rule.selectors@.len(),
            rule.enabled,
            best == max_specificity(rule.selectors@, *output, trigger, platform, i as int),
    {
        let s = &rule.selectors[i];
        if s.trigger == trigger && selector_matches(s, output, platform) {
            let x = selector_specificity(s);
            best = match best {
                None => Some(x),
                Some(p) => Some(
                    if p >= x {
                        p
                    } else {
                        x
                    },
                ),
            };
        }
    }
    best
}

/// Lexicographic `<` on the characters of two strings.
fn str_less(a: &String, b: &String) -> (r: bool)
    ensures
        r == seq_less(a@, b@),
{
    let x = crate::text::chars_of(a.as_str());
    let y = crate::text::chars_of(b.as_str());
    let mut i: usize = 0;
    assert(x@.skip(0) == x@ && y@.skip(0) == y@);
    while i < x.len() && i < y.len() && x[i] == y[i]
        invariant
            i <= x@.len(),
            i <= y@.len(),
            x@ == a@,
            y@ == b@,
            seq_less(a@, b@) == seq_less(x@.skip(i as int), y@.skip(i as int)),
        decreases x.len() - i,
    {
        assert(x@.skip(i as int).drop_first() == x@.skip(i + 1));
        assert(y@.skip(i as int).drop_first() == y@.skip(i + 1));
        i = i + 1;
    }
    if i == x.len() {
        i < y.len()
    } else if i == y.len() {
        false
    } else {
        x[i] < y[i]
    }
}

/// Does `left` rank strictly above `right`?
fn ranks_above_exec(rules: &[EqualizerDeviceRule], left: &MatchedRule, right: &MatchedRule) -> (r:
    bool)
    requires
        left.index < rules@.len(),
        right.index < rules@.len(),
    ensures
        r == ranks_above(rules@, *left, *right),
{
    let l = &rules[left.index];
    let r = &rules[right.index];
    l.priority > r.priority || (l.priority == r.priority && left.specificity > right.specificity)
        || (l.priority == r.priority && left.specificity == right.specificity && str_less(
        &l.id,
        &r.id,
    ))
}

/// Order of two matches: priority, then specificity, then (on a tie) the
/// lexicographically smaller rule id counts as greater.
pub fn compare_matched(
    rules: &[EqualizerDeviceRule],
    left: &MatchedRule,
    right: &MatchedRule,
) -> (r: core::cmp::Ordering)
    requires
        left.index < rules@.len(),
        right.index < rules@.len(),
    ensures
        (r == core::cmp::Ordering::Greater) == ranks_above(rules@, *left, *right),
        (r == core::cmp::Ordering::Less) == ranks_above(rules@, *right, *left),
{
    proof {
        lemma_ranks_above_asym(rules@, *left, *right);
    }
    if ranks_above_exec(rules, left, right) {
        core::cmp::Ordering::Greater
    } else if ranks_above_exec(rules, right, left) {
        core::cmp::Ordering::Less
    } else {
        core::cmp::Ordering::Equal
    }
}

/// The enabled rule with a selector for `trigger` that best matches
/// `output` (the last of equally ranked ones).
pub fn best_rule(
    rules: &[EqualizerDeviceRule],
    output: &AudioOutput,
    trigger: TriggerKind,
    platform: Option<Platform>,
) -> (r: Option<MatchedRule>)
    ensures
        r == best_rule_spec(rules@, *output, trigger, platform),
        r matches Some(m) ==> m.index < rules@.len(),
{
    let mut best: Option<MatchedRule> = None;
    let n = rules.len();
    for i in 0..n
        invariant
            n == rules@.len(),
            best == best_rule_upto(rules@, *output, trigger, platform, i as int),
            best matches Some(m) ==> m.index < i,
    {
        match rule_match_exec(&rules[i], output, trigger, platform) {
            None => {},
            Some(sp) => {
                let cand = MatchedRule { index: i, specificity: sp };
                best = match best {
                    None => Some(cand),
                    Some(b) => {
                        if ranks_above_exec(rules, &b, &cand) {
                            Some(b)
                        } else {
                            Some(cand)
                        }
                    },
                };
            },
        }
    }
    best
}

fn best_connected(
    rules: &[EqualizerDeviceRule],
    outputs: &[AudioOutput],
    platform: Option<Platform>,
) -> (r: Option<(MatchedRule, usize)>)
    ensures
        match r {
            None => best_connected_upto(rules@, outputs@, platform, outputs@.len() as int) is None,
            Some((m, oi)) => best_connected_upto(rules@, outputs@, platform, outputs@.len() as int)
                == Some((m, oi as int)) && m.index < rules@.len() && oi < outputs@.len(),
        },
{
    let mut best: Option<(MatchedRule, usize)> = None;
    let n = outputs.len();
    for i in 0..n
        invariant
            n == outputs@.len(),
            match best {
                None => best_connected_upto(rules@, outputs@, platform, i as int) is None,
                Some((m, oi)) => best_connected_upto(rules@, outputs@, platform, i as int) == Some(
                    (m, oi as int),
                ) && m.index < rules@.len() && oi < i,
            },
    {
        let o = &outputs[i];
        if o.connected {
            match best_rule(rules, o, TriggerKind::Connected, platform) {
                None => {},
                Some(m) => {
                    best = match best {
                        None => Some((m, i)),
                        Some((b, bi)) => {
                            if ranks_above_exec(rules, &b, &m) {
                                Some((b, bi))
                            } else {
                                Some((m, i))
                            }
                        },
                    };
                },
            }
        }
    }
    best
}

fn attach_summary(r: Resolution, o: &AudioOutput) -> (out: Resolution)
    ensures
        out@ == with_summary(r@, *o),
{
    Resolution { output_summary: Some(AudioOutputSummary::from_output(o)), ..r }
}

fn resolve_connected_fallback(input: &ResolveInput, layer: ProfileLayer) -> (r: Option<Resolution>)
    ensures
        match r {
            None => connected_fallback_spec(*input, layer) is None,
            Some(x) => connected_fallback_spec(*input, layer) == Some(x@),
        },
{
    let l = pick_layer(layer, input.synced, input.local);
    let rules = l.device_rules.as_slice();
    match best_connected(rules, input.outputs, input.platform) {
        None => None,
        Some((m, oi)) => {
            let rule = &rules[m.index];
            let res = resolve_target(layer, &rule.action, input.synced, input.local, ResolveReason::ConnectedFallback);
            Some(attach_summary(res, &input.outputs[oi]))
        },
    }
}

fn find_selected(outputs: &[AudioOutput]) -> (r: Option<usize>)
    ensures
        match r {
            None => first_selected(outputs@, 0) is None,
            Some(k) => first_selected(outputs@, 0) == Some(k as int) && k < outputs@.len(),
        },
{
    let n = outputs.len();
    for i in 0..n
        invariant
            n == outputs@.len(),
            first_selected(outputs@, 0) == first_selected(outputs@, i as int),
    {
        if outputs[i].selected {
            return Some(i);
        }
    }
    None
}

fn find_binding(bindings: &[ExactBinding], key: &String) -> (r: Option<usize>)
    ensures
        match r {
            None => first_binding(bindings@, key@, 0) is None,
            Some(k) => first_binding(bindings@, key@, 0) == Some(k as int) && k < bindings@.len(),
        },
{
    let n = bindings.len();
    for i in 0..n
        invariant
            n == bindings@.len(),
            first_binding(bindings@, key@, 0) == first_binding(bindings@, key@, i as int),
    {
        if bindings[i].endpoint_key == *key && !bindings[i].orphaned {
            return Some(i);
        }
    }
    None
}

fn resolve_automatic(input: &ResolveInput, layer: ProfileLayer) -> (r: Option<Resolution>)
    ensures
        match r {
            None => automatic_spec(*input, layer) is None,
            Some(x) => automatic_spec(*input, layer) == Some(x@),
        },
{
    match find_selected(input.outputs) {
        None => resolve_connected_fallback(input, layer),
        Some(k) => {
            let o = &input.outputs[k];
            let reliable = match o.accuracy {
                RouteAccuracy::Exact | RouteAccuracy::Predicted | RouteAccuracy::Default => true,
                _ => false,
            };
            if reliable {
                let found = match &o.local_endpoint_key {
                    Some(key) => find_binding(input.exact_bindings, key),
                    None => None,
                };
                match found {
                    Some(bi) => {
                        let t = &input.exact_bindings[bi].target;
                        let res = resolve_target(t.layer, &t.action, input.synced, input.local, ResolveReason::LocalExact);
                        Some(attach_summary(res, o))
                    },
                    None => {
                        let l = pick_layer(layer, input.synced, input.local);
                        let rules = l.device_rules.as_slice();
                        match best_rule(rules, o, TriggerKind::ActiveOutput, input.platform) {
                            Some(m) => {
                                let rule = &rules[m.index];
                                let res = resolve_target(layer, &rule.action, input.synced, input.local, ResolveReason::PortableRule);
                                Some(attach_summary(res, o))
                            },
                            None => None,
                        }
                    },
                }
            } else {
                resolve_connected_fallback(input, layer)
            }
        },
    }
}

/// Resolve the effective equalizer for the current outputs and settings.
pub fn resolve(input: ResolveInput) -> (r: ResolvedEqualizer)
    ensures
        r@ == resolve_spec(input),
{
    let layer = if input.support_state == SupportState::Supported {
        ProfileLayer::Synced
    } else {
        ProfileLayer::LocalOnly
    };
    let selected = find_selected(input.outputs);
    let result = if input.support_state == SupportState::FutureFormat {
        Resolution::flat(ResolveReason::Unsupported)
    } else if !input.preferences.master_enabled {
        Resolution::flat(ResolveReason::Disabled)
    } else if let Some(t) = input.manual_override {
        resolve_target(t.layer, &t.action, input.synced, input.local, ResolveReason::Manual)
    } else if input.preferences.automatic_switching_enabled {
        match resolve_automatic(&input, layer) {
            Some(r) => r,
            None => resolve_default(layer, input.synced, input.local),
        }
    } else {
        resolve_default(layer, input.synced, input.local)
    };
    let summary = match result.output_summary {
        Some(s) => Some(s),
        None => match selected {
            Some(k) => Some(AudioOutputSummary::from_output(&input.outputs[k])),
            None => None,
        },
    };
    ResolvedEqualizer {
        profile: result.profile,
        layer: result.layer,
        reason: result.reason,
        output_summary: summary,
        state_revision: input.synced_state_revision,
        scope_epoch: input.scope_epoch,
        resolution_generation: input.resolution_generation,
    }
}

} // verus!

verus! {

// ---------------------------------------------------------------------------
// Laws
// ---------------------------------------------------------------------------

proof fn lemma_seq_less_weak_order(x: Seq<char>, y: Seq<char>, z: Seq<char>)
    ensures
        seq_less(x, z) ==> seq_less(x, y) || seq_less(y, z),
    decreases x.len(),
{
    if x.len() > 0 && y.len() > 0 && z.len() > 0 && x[0] == z[0] && y[0] == x[0] {
        lemma_seq_less_weak_order(x.drop_first(), y.drop_first(), z.drop_first());
    }
}

proof fn lemma_not_above_trans(rules: Seq<EqualizerDeviceRule>, x: MatchedRule, y: MatchedRule, z: MatchedRule)
    requires
        x.index < rules.len(),
        y.index < rules.len(),
        z.index < rules.len(),
        !ranks_above(rules, x, y),
        !ranks_above(rules, y, z),
    ensures
        !ranks_above(rules, x, z),
{
    lemma_seq_less_weak_order(rules[x.index as int].id@, rules[y.index as int].id@, rules[z.index as int].id@);
}

/// What `best_rule_upto` guarantees about rules `[..n]`.
pub open spec fn is_best_upto(
    rules: Seq<EqualizerDeviceRule>,
    o: AudioOutput,
    trigger: TriggerKind,
    platform: Option<Platform>,
    n: int,
    best: Option<MatchedRule>,
) -> bool {
    match best {
        None => forall|j: int| 0 <= j < n ==> rule_match(#[trigger] rules[j], o, trigger, platform) is None,
        Some(m) => {
            &&& m.index < n
            &&& rule_match(rules[m.index as int], o, trigger, platform) == Some(m.specificity)
            &&& forall|j: int|
                0 <= j < n && #[trigger] rule_match(rules[j], o, trigger, platform) is Some ==> !ranks_above(
                    rules,
                    MatchedRule {
                        index: j as usize,
                        specificity: rule_match(rules[j], o, trigger, platform)->0,
                    },
                    m,
                )
        },
    }
}

proof fn lemma_best_rule_upto(
    rules: Seq<EqualizerDeviceRule>,
    o: AudioOutput,
    trigger: TriggerKind,
    platform: Option<Platform>,
    n: int,
)
    requires
        0 <= n <= rules.len(),
        rules.len() <= usize::MAX,
    ensures
        is_best_upto(rules, o, trigger, platform, n, best_rule_upto(rules, o, trigger, platform, n)),
    decreases n,
{
    if n > 0 {
        lemma_best_rule_upto(rules, o, trigger, platform, n - 1);
        let prev = best_rule_upto(rules, o, trigger, platform, n - 1);
        match rule_match(rules[n - 1], o, trigger, platform) {
            None => {},
            Some(sp) => {
                let cand = MatchedRule { index: (n - 1) as usize, specificity: sp };
                match prev {
                    None => {
                        assert forall|j: int|
                            0 <= j < n && #[trigger] rule_match(rules[j], o, trigger, platform) is Some
                                implies !ranks_above(
                            rules,
                            MatchedRule {
                                index: j as usize,
                                specificity: rule_match(rules[j], o, trigger, platform)->0,
                            },
                            cand,
                        ) by {
                            assert(j == n - 1);
                            lemma_ranks_above_asym(rules, cand, cand);
                        }
                    },
                    Some(b) => {
                        lemma_ranks_above_asym(rules, b, cand);
                        if ranks_above(rules, b, cand) {
                            assert forall|j: int|
                                0 <= j < n && #[trigger] rule_match(rules[j], o, trigger, platform) is Some
                                    implies !ranks_above(
                                rules,
                                MatchedRule {
                                    index: j as usize,
                                    specificity: rule_match(rules[j], o, trigger, platform)->0,
                                },
                                b,
                            ) by {
                                if j == n - 1 {
                                    assert(!ranks_above(rules, cand, b));
                                }
                            }
                        } else {
                            assert forall|j: int|
                                0 <= j < n && #[trigger] rule_match(rules[j], o, trigger, platform) is Some
                                    implies !ranks_above(
                                rules,
                                MatchedRule {
                                    index: j as usize,
                                    specificity: rule_match(rules[j], o, trigger, platform)->0,
                                },
                                cand,
                            ) by {
                                let mj = MatchedRule {
                                    index: j as usize,
                                    specificity: rule_match(rules[j], o, trigger, platform)->0,
                                };
                                if j == n - 1 {
                                    lemma_ranks_above_asym(rules, cand, cand);
                                } else {
                                    lemma_not_above_trans(rules, mj, b, cand);
                                }
                            }
                        }
                    },
                }
            },
        }
    }
}

/// The rule `best_rule` picks matches the output, every rule that matches
/// ranks no higher than it, and it picks none only when no rule matches.
pub proof fn law_best_rule_is_maximal(
    rules: Seq<EqualizerDeviceRule>,
    o: AudioOutput,
    trigger: TriggerKind,
    platform: Option<Platform>,
)
    requires
        rules.len() <= usize::MAX,
    ensures
        is_best_upto(rules, o, trigger, platform, rules.len() as int, best_rule_spec(rules, o, trigger, platform)),
{
    lemma_best_rule_upto(rules, o, trigger, platform, rules.len() as int);
}

/// The rule picked for an output has the highest priority among the rules
/// that match it, and among the matching rules of that priority the highest
/// specificity, and among those the smallest id: a matching rule of
/// strictly higher priority is never passed over for one of lower priority.
pub proof fn law_best_rule_has_top_priority(
    rules: Seq<EqualizerDeviceRule>,
    o: AudioOutput,
    trigger: TriggerKind,
    platform: Option<Platform>,
)
    requires
        rules.len() <= usize::MAX,
    ensures
        match best_rule_spec(rules, o, trigger, platform) {
            None => forall|j: int| 0 <= j < rules.len() ==> rule_match(#[trigger] rules[j], o, trigger, platform) is None,
            Some(m) => {
                &&& 0 <= m.index < rules.len()
                &&& rule_match(rules[m.index as int], o, trigger, platform) == Some(m.specificity)
                &&& forall|j: int|
                    0 <= j < rules.len() && #[trigger] rule_match(rules[j], o, trigger, platform) is Some
                        ==> rules[j].priority <= rules[m.index as int].priority && (rules[j].priority
                        == rules[m.index as int].priority ==> rule_match(rules[j], o, trigger, platform)->0
                        <= m.specificity) && (rules[j].priority == rules[m.index as int].priority
                        && rule_match(rules[j], o, trigger, platform)->0 == m.specificity ==> !seq_less(
                        rules[j].id@,
                        rules[m.index as int].id@,
                    ))
            },
        },
{
    lemma_best_rule_upto(rules, o, trigger, platform, rules.len() as int);
}

/// A state from a newer format resolves flat, whatever else is set.
pub proof fn law_future_format_resolves_flat(input: ResolveInput)
    requires
        input.support_state == SupportState::FutureFormat,
    ensures
        resolve_spec(input).0.reason == ResolveReason::Unsupported,
        resolve_spec(input).0.profile is None,
        resolve_spec(input).0.layer is None,
{
}

/// With the master switch off (and a readable state) nothing is applied.
pub proof fn law_master_switch_off_resolves_flat(input: ResolveInput)
    requires
        input.support_state != SupportState::FutureFormat,
        !input.preferences.master_enabled,
    ensures
        resolve_spec(input).0.reason == ResolveReason::Disabled,
        resolve_spec(input).0.profile is None,
{
}

/// A manual override wins over bindings, rules and the default: the result
/// is the override's target (flat when it names a missing profile).
pub proof fn law_manual_override_wins(input: ResolveInput)
    requires
        input.support_state != SupportState::FutureFormat,
        input.preferences.master_enabled,
        input.manual_override is Some,
    ensures
        ({
            let t = input.manual_override->0;
            let r = target_spec(t.layer, t.action.profile_id_spec(), input.synced, input.local, ResolveReason::Manual);
            resolve_spec(input).0.profile == r.profile && resolve_spec(input).0.reason == r.reason
                && resolve_spec(input).0.layer == r.layer
        }),
{
}

/// With automatic switching off, outputs, bindings and rules play no part:
/// the active layer's default profile (or flat) is applied.
pub proof fn law_manual_mode_uses_default(input: ResolveInput)
    requires
        input.support_state != SupportState::FutureFormat,
        input.preferences.master_enabled,
        input.manual_override is None,
        !input.preferences.automatic_switching_enabled,
    ensures
        ({
            let d = default_spec(active_layer(input.support_state), input.synced, input.local);
            resolve_spec(input).0.profile == d.profile && resolve_spec(input).0.reason == d.reason
                && resolve_spec(input).0.layer == d.layer
        }),
{
}

/// In automatic mode, an exact binding for the reliably selected output is
/// applied before any portable rule or the default.
pub proof fn law_exact_binding_first(input: ResolveInput, k: int, bi: int)
    requires
        input.support_state != SupportState::FutureFormat,
        input.preferences.master_enabled,
        input.manual_override is None,
        input.preferences.automatic_switching_enabled,
        first_selected(input.outputs@, 0) == Some(k),
        is_reliable(input.outputs@[k].accuracy),
        input.outputs@[k].local_endpoint_key is Some,
        first_binding(input.exact_bindings@, input.outputs@[k].local_endpoint_key->0@, 0) == Some(bi),
    ensures
        ({
            let t = input.exact_bindings@[bi].target;
            let r = target_spec(t.layer, t.action.profile_id_spec(), input.synced, input.local, ResolveReason::LocalExact);
            resolve_spec(input).0.profile == r.profile && resolve_spec(input).0.reason == r.reason
                && resolve_spec(input).0.layer == r.layer
        }),
{
}

/// The applied profile, if any, is one of the chosen layer's profiles.
pub proof fn law_resolved_profile_in_layer(input: ResolveInput)
    ensures
        resolve_spec(input).0.profile matches Some(i) ==> resolve_spec(input).0.layer is Some && i
            < layer_of(resolve_spec(input).0.layer->0, input.synced, input.local).profile_ids@.len(),
{
    let layer = active_layer(input.support_state);
    if input.support_state != SupportState::FutureFormat && input.preferences.master_enabled {
        if input.manual_override is Some {
            let t = input.manual_override->0;
            lemma_target_in_layer(t.layer, t.action.profile_id_spec(), input.synced, input.local, ResolveReason::Manual);
        } else {
            lemma_default_in_layer(layer, input.synced, input.local);
            if input.preferences.automatic_switching_enabled {
                lemma_automatic_in_layer(input, layer);
            }
        }
    }
}

pub open spec fn profile_in_layer(r: ResolutionView, synced: &ResolverLayer, local: &ResolverLayer) -> bool {
    r.profile matches Some(i) ==> r.layer is Some && i < layer_of(r.layer->0, synced, local).profile_ids@.len()
}

proof fn lemma_first_id_index_bound(ids: Seq<String>, id: Seq<char>, from: int)
    ensures
        first_id_index(ids, id, from) matches Some(i) ==> 0 <= i < ids.len(),
    decreases ids.len() - from,
{
    if 0 <= from < ids.len() && ids[from]@ != id {
        lemma_first_id_index_bound(ids, id, from + 1);
    }
}

proof fn lemma_target_in_layer(
    layer: ProfileLayer,
    pid: Option<Seq<char>>,
    synced: &ResolverLayer,
    local: &ResolverLayer,
    reason: ResolveReason,
)
    ensures
        profile_in_layer(target_spec(layer, pid, synced, local, reason), synced, local),
{
    if let Some(id) = pid {
        lemma_first_id_index_bound(layer_of(layer, synced, local).profile_ids@, id, 0);
    }
}

proof fn lemma_default_in_layer(layer: ProfileLayer, synced: &ResolverLayer, local: &ResolverLayer)
    ensures
        profile_in_layer(default_spec(layer, synced, local), synced, local),
{
    if let Some(id) = layer_of(layer, synced, local).default_profile_id {
        lemma_target_in_layer(layer, Some(id@), synced, local, ResolveReason::Default);
    }
}

proof fn lemma_automatic_in_layer(input: ResolveInput, layer: ProfileLayer)
    ensures
        automatic_spec(input, layer) matches Some(r) ==> profile_in_layer(r, input.synced, input.local),
{
    let rules = layer_of(layer, input.synced, input.local).device_rules@;
    match best_connected_upto(rules, input.outputs@, input.platform, input.outputs@.len() as int) {
        Some((m, oi)) => {
            lemma_target_in_layer(layer, rules[m.index as int].action.profile_id_spec(), input.synced, input.local, ResolveReason::ConnectedFallback);
        },
        None => {},
    }
    match first_selected(input.outputs@, 0) {
        None => {},
        Some(k) => {
            let o = input.outputs@[k];
            match (
                match o.local_endpoint_key {
                    Some(key) => first_binding(input.exact_bindings@, key@, 0),
                    None => None,
                }
            ) {
                Some(bi) => {
                    let t = input.exact_bindings@[bi].target;
                    lemma_target_in_layer(t.layer, t.action.profile_id_spec(), input.synced, input.local, ResolveReason::LocalExact);
                },
                None => {
                    match best_rule_spec(rules, o, TriggerKind::ActiveOutput, input.platform) {
                        Some(m) => {
                            lemma_target_in_layer(layer, rules[m.index as int].action.profile_id_spec(), input.synced, input.local, ResolveReason::PortableRule);
                        },
                        None => {},
                    }
                },
            }
        },
    }
}

} // verus!
