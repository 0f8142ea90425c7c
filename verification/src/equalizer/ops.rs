//! Typed payloads of the account-scoped equalizer mutation outbox: what
//! each queued operation is about and depends on, retargeting it to new ids,
//! laying it over the server's state before the server answers, and
//! rebasing it onto a newer state.
use vstd::prelude::*;

use vstd::pervasive::cloned;

use crate::equalizer::model::{
    now_string, DeleteProfileDisposition, DeleteProfileRequest, EntityRevision,
    EqualizerDeviceRule, EqualizerDeviceRuleInput, EqualizerProfile, EqualizerProfileInput,
    EqualizerState, PortableDeviceSelector, ProfileLayer, ProfileTarget, Revision, RuleAction,
};
use crate::error::AppError;
use crate::equalizer::op_type;
use crate::text::{chars_of, push_str, string_from_chars};

verus! {

/// The value mapped to `key`: that of the first pair holding it.
pub open spec fn lookup(mapping: Seq<(String, String)>, key: Seq<char>) -> Option<Seq<char>>
    decreases mapping.len(),
{
    if mapping.len() == 0 {
        None
    } else if mapping[0].0@ == key {
        Some(mapping[0].1@)
    } else {
        lookup(mapping.drop_first(), key)
    }
}

/// An id after remapping: its mapped value, or itself when unmapped.
pub open spec fn remapped(mapping: Seq<(String, String)>, id: Seq<char>) -> Seq<char> {
    match lookup(mapping, id) {
        Some(v) => v,
        None => id,
    }
}

/// Replace `id` by its mapped value, if it has one. The mapping holds each
/// old id once.
pub fn remap_id(id: &mut String, mapping: &Vec<(String, String)>)
    ensures
        final(id)@ == remapped(mapping@, old(id)@),
{
    let mut i: usize = 0;
    assert(mapping@.skip(0) =~= mapping@);
    while i < mapping.len()
        invariant
            i <= mapping@.len(),
            *id == *old(id),
            lookup(mapping@, id@) == lookup(mapping@.skip(i as int), id@),
        decreases mapping.len() - i,
    {
        let ghost rest = mapping@.skip(i as int);
        assert(rest[0] == mapping@[i as int]);
        assert(rest.drop_first() =~= mapping@.skip(i + 1));
        if mapping[i].0 == *id {
            *id = mapping[i].1.clone();
            return;
        }
        i = i + 1;
    }
    assert(mapping@.skip(i as int) =~= Seq::<(String, String)>::empty());
}

/// The action after remapping the profile it applies.
pub open spec fn remapped_action(mapping: Seq<(String, String)>, a: RuleAction) -> Option<
    Seq<char>,
> {
    match a {
        RuleAction::Profile { profile_id } => Some(remapped(mapping, profile_id@)),
        RuleAction::Bypass => None,
    }
}

/// Retarget a profile action through `profile_ids`; a bypass stays a bypass.
pub fn remap_action(action: &mut RuleAction, profile_ids: &Vec<(String, String)>)
    ensures
        final(action).profile_id_spec() == remapped_action(profile_ids@, *old(action)),
{
    match action {
        RuleAction::Profile { profile_id } => remap_id(profile_id, profile_ids),
        RuleAction::Bypass => {},
    }
}

/// An exact copy of a selector.
pub fn copy_selector(s: &PortableDeviceSelector) -> (r: PortableDeviceSelector)
    ensures
        r == *s,
{
    PortableDeviceSelector {
        normalization_version: s.normalization_version,
        route_kind: s.route_kind,
        normalized_name: s.normalized_name.clone(),
        vendor_id: match &s.vendor_id {
            Some(v) => Some(v.clone()),
            None => None,
        },
        product_id: match &s.product_id {
            Some(v) => Some(v.clone()),
            None => None,
        },
        platform_scope: s.platform_scope,
        trigger: s.trigger,
    }
}

/// An exact copy of a selector list.
pub fn copy_selectors(v: &Vec<PortableDeviceSelector>) -> (r: Vec<PortableDeviceSelector>)
    ensures
        r@ == v@,
{
    let mut r: Vec<PortableDeviceSelector> = Vec::new();
    let n = v.len();
    for i in 0..n
        invariant
            n == v@.len(),
            r@ == v@.take(i as int),
    {
        r.push(copy_selector(&v[i]));
        assert(r@ =~= v@.take(i + 1));
    }
    assert(v@.take(n as int) =~= v@);
    r
}

/// An exact copy of an action.
pub fn copy_action(a: &RuleAction) -> (r: RuleAction)
    ensures
        r == *a,
{
    match a {
        RuleAction::Profile { profile_id } => RuleAction::Profile { profile_id: profile_id.clone() },
        RuleAction::Bypass => RuleAction::Bypass,
    }
}

/// `r` is the rule built from `input` at `revision` and `priority`.
pub open spec fn rule_of_input(
    r: EqualizerDeviceRule,
    input: EqualizerDeviceRuleInput,
    revision: Revision,
    priority: i32,
) -> bool {
    &&& r.id == input.id
    &&& r.label == input.label
    &&& r.action == input.action
    &&& r.selectors@ == input.selectors@
    &&& r.priority == priority
    &&& r.enabled == input.enabled
    &&& r.revision == revision
}

/// The optimistic rule shown for a queued rule create/update: the input's
/// fields with the given revision and priority.
pub fn rule_to_overlay(input: &EqualizerDeviceRuleInput, revision: Revision, priority: i32) -> (r:
    EqualizerDeviceRule)
    ensures
        rule_of_input(r, *input, revision, priority),
{
    EqualizerDeviceRule {
        id: input.id.clone(),
        label: input.label.clone(),
        action: copy_action(&input.action),
        selectors: copy_selectors(&input.selectors),
        priority,
        enabled: input.enabled,
        revision,
    }
}

// ---------------------------------------------------------------------------
// Queued operations
// ---------------------------------------------------------------------------

/// One queued mutation; `S` is the profile sound it may carry.
#[derive(Debug, Clone)]
pub enum PendingEqualizerOpKind<S> {
    ProfileCreate { profile: EqualizerProfileInput<S> },
    ProfileUpdate { profile_id: String, expected_revision: Revision, profile: EqualizerProfileInput<S> },
    ProfileDelete { request: DeleteProfileRequest },
    SettingsUpdate { expected_settings_revision: Revision, default_profile_id: Option<String> },
    RuleCreate { rule: EqualizerDeviceRuleInput },
    RuleUpdate { rule_id: String, expected_revision: Revision, rule: EqualizerDeviceRuleInput },
    RuleDelete { rule_id: String, expected_revision: Revision },
    RuleReorder { rules: Vec<EntityRevision> },
}

/// `"profile:<id>"`.
pub open spec fn profile_group(id: Seq<char>) -> Seq<char> {
    "profile:"@ + id
}

/// `"rule:<id>"`.
pub open spec fn rule_group(id: Seq<char>) -> Seq<char> {
    "rule:"@ + id
}

/// The group of a rule write: that of the profile it applies, else its own.
pub open spec fn rule_write_group(rule_id: Seq<char>, action: RuleAction) -> Seq<char> {
    match action.profile_id_spec() {
        Some(p) => profile_group(p),
        None => rule_group(rule_id),
    }
}

/// A rule's id and, when it applies one, its profile's id.
pub open spec fn rule_write_ids(rule_id: Seq<char>, action: RuleAction) -> Seq<Seq<char>> {
    match action.profile_id_spec() {
        Some(p) => seq![rule_id, p],
        None => seq![rule_id],
    }
}

/// The ids of a list of expected revisions.
pub open spec fn entity_ids(v: Seq<EntityRevision>) -> Seq<Seq<char>> {
    v.map_values(|e: EntityRevision| e.id@)
}

/// The text views of a list of borrowed strings.
pub open spec fn str_views(v: Seq<&str>) -> Seq<Seq<char>> {
    v.map_values(|s: &str| s@)
}

fn group_text(prefix: &str, id: &str) -> (out: String)
    ensures
        out@ == prefix@ + id@,
{
    let mut v = chars_of(prefix);
    push_str(&mut v, id);
    string_from_chars(&v)
}

impl<S> PendingEqualizerOpKind<S> {
    /// The operation type name stored beside the payload.
    pub open spec fn op_type_text(&self) -> Seq<char> {
        match self {
            PendingEqualizerOpKind::ProfileCreate { .. } => op_type::PROFILE_CREATE@,
            PendingEqualizerOpKind::ProfileUpdate { .. } => op_type::PROFILE_UPDATE@,
            PendingEqualizerOpKind::ProfileDelete { .. } => op_type::PROFILE_DELETE@,
            PendingEqualizerOpKind::SettingsUpdate { .. } => op_type::SETTINGS_UPDATE@,
            PendingEqualizerOpKind::RuleCreate { .. } => op_type::RULE_CREATE@,
            PendingEqualizerOpKind::RuleUpdate { .. } => op_type::RULE_UPDATE@,
            PendingEqualizerOpKind::RuleDelete { .. } => op_type::RULE_DELETE@,
            PendingEqualizerOpKind::RuleReorder { .. } => op_type::RULE_REORDER@,
        }
    }

    pub fn op_type(&self) -> (r: &'static str)
        ensures
            r@ == self.op_type_text(),
    {
        match self {
            PendingEqualizerOpKind::ProfileCreate { .. } => op_type::PROFILE_CREATE,
            PendingEqualizerOpKind::ProfileUpdate { .. } => op_type::PROFILE_UPDATE,
            PendingEqualizerOpKind::ProfileDelete { .. } => op_type::PROFILE_DELETE,
            PendingEqualizerOpKind::SettingsUpdate { .. } => op_type::SETTINGS_UPDATE,
            PendingEqualizerOpKind::RuleCreate { .. } => op_type::RULE_CREATE,
            PendingEqualizerOpKind::RuleUpdate { .. } => op_type::RULE_UPDATE,
            PendingEqualizerOpKind::RuleDelete { .. } => op_type::RULE_DELETE,
            PendingEqualizerOpKind::RuleReorder { .. } => op_type::RULE_REORDER,
        }
    }

    /// The profile or rule the operation writes, if it writes one.
    pub open spec fn entity(&self) -> Option<Seq<char>> {
        match self {
            PendingEqualizerOpKind::ProfileCreate { profile } => Some(profile.id@),
            PendingEqualizerOpKind::ProfileUpdate { profile_id, .. } => Some(profile_id@),
            PendingEqualizerOpKind::ProfileDelete { request } => Some(request.profile_id@),
            PendingEqualizerOpKind::SettingsUpdate { .. } => None,
            PendingEqualizerOpKind::RuleCreate { rule } => Some(rule.id@),
            PendingEqualizerOpKind::RuleUpdate { rule_id, .. } => Some(rule_id@),
            PendingEqualizerOpKind::RuleDelete { rule_id, .. } => Some(rule_id@),
            PendingEqualizerOpKind::RuleReorder { .. } => None,
        }
    }

    pub fn entity_id(&self) -> (r: Option<&str>)
        ensures
            match r {
                Some(s) => self.entity() == Some(s@),
                None => self.entity() is None,
            },
    {
        match self {
            PendingEqualizerOpKind::ProfileCreate { profile } => Some(profile.id.as_str()),
            PendingEqualizerOpKind::ProfileUpdate { profile_id, .. } => Some(profile_id.as_str()),
            PendingEqualizerOpKind::ProfileDelete { request } => Some(request.profile_id.as_str()),
            PendingEqualizerOpKind::SettingsUpdate { .. } => None,
            PendingEqualizerOpKind::RuleCreate { rule } => Some(rule.id.as_str()),
            PendingEqualizerOpKind::RuleUpdate { rule_id, .. } => Some(rule_id.as_str()),
            PendingEqualizerOpKind::RuleDelete { rule_id, .. } => Some(rule_id.as_str()),
            PendingEqualizerOpKind::RuleReorder { .. } => None,
        }
    }

    /// The revision the operation expects on the server, if it expects one.
    pub open spec fn expected_base(&self) -> Option<Revision> {
        match self {
            PendingEqualizerOpKind::ProfileUpdate { expected_revision, .. } => Some(*expected_revision),
            PendingEqualizerOpKind::RuleUpdate { expected_revision, .. } => Some(*expected_revision),
            PendingEqualizerOpKind::RuleDelete { expected_revision, .. } => Some(*expected_revision),
            PendingEqualizerOpKind::ProfileDelete { request } => Some(request.expected_revision),
            PendingEqualizerOpKind::SettingsUpdate { expected_settings_revision, .. } => Some(
                *expected_settings_revision,
            ),
            _ => None,
        }
    }

    pub fn base_revision(&self) -> (r: Option<Revision>)
        ensures
            r == self.expected_base(),
    {
        match self {
            PendingEqualizerOpKind::ProfileUpdate { expected_revision, .. } => Some(*expected_revision),
            PendingEqualizerOpKind::RuleUpdate { expected_revision, .. } => Some(*expected_revision),
            PendingEqualizerOpKind::RuleDelete { expected_revision, .. } => Some(*expected_revision),
            PendingEqualizerOpKind::ProfileDelete { request } => Some(request.expected_revision),
            PendingEqualizerOpKind::SettingsUpdate { expected_settings_revision, .. } => Some(
                *expected_settings_revision,
            ),
            _ => None,
        }
    }

    /// The group queued operations are ordered in: a profile's, a rule's,
    /// the settings' or the rule order's.
    pub open spec fn group(&self) -> Seq<char> {
        match self {
            PendingEqualizerOpKind::ProfileCreate { profile } => profile_group(profile.id@),
            PendingEqualizerOpKind::ProfileUpdate { profile_id, .. } => profile_group(profile_id@),
            PendingEqualizerOpKind::ProfileDelete { request } => profile_group(request.profile_id@),
            PendingEqualizerOpKind::SettingsUpdate { default_profile_id, .. } => match default_profile_id {
                Some(id) => profile_group(id@),
                None => "settings"@,
            },
            PendingEqualizerOpKind::RuleCreate { rule } => rule_write_group(rule.id@, rule.action),
            PendingEqualizerOpKind::RuleUpdate { rule_id, rule, .. } => rule_write_group(
                rule_id@,
                rule.action,
            ),
            PendingEqualizerOpKind::RuleDelete { rule_id, .. } => rule_group(rule_id@),
            PendingEqualizerOpKind::RuleReorder { .. } => "rule-order"@,
        }
    }

    pub fn dependency_group(&self) -> (r: String)
        ensures
            r@ == self.group(),
    {
        match self {
            PendingEqualizerOpKind::ProfileCreate { profile } => group_text("profile:", profile.id.as_str()),
            PendingEqualizerOpKind::ProfileUpdate { profile_id, .. } => group_text("profile:", profile_id.as_str()),
            PendingEqualizerOpKind::ProfileDelete { request } => group_text("profile:", request.profile_id.as_str()),
            PendingEqualizerOpKind::SettingsUpdate { default_profile_id, .. } => match default_profile_id {
                Some(id) => group_text("profile:", id.as_str()),
                None => string_from_chars(&chars_of("settings")),
            },
            PendingEqualizerOpKind::RuleCreate { rule } => match rule.action.profile_id() {
                Some(p) => group_text("profile:", p),
                None => group_text("rule:", rule.id.as_str()),
            },
            PendingEqualizerOpKind::RuleUpdate { rule_id, rule, .. } => match rule.action.profile_id() {
                Some(p) => group_text("profile:", p),
                None => group_text("rule:", rule_id.as_str()),
            },
            PendingEqualizerOpKind::RuleDelete { rule_id, .. } => group_text("rule:", rule_id.as_str()),
            PendingEqualizerOpKind::RuleReorder { .. } => string_from_chars(&chars_of("rule-order")),
        }
    }

    /// Every profile and rule the operation touches or refers to: the edges
    /// that tie queued operations into one ordered component.
    pub open spec fn dependency_ids(&self) -> Seq<Seq<char>> {
        match self {
            PendingEqualizerOpKind::ProfileCreate { profile } => seq![profile.id@],
            PendingEqualizerOpKind::ProfileUpdate { profile_id, .. } => seq![profile_id@],
            PendingEqualizerOpKind::ProfileDelete { request } => seq![request.profile_id@]
                + entity_ids(request.referencing_rules@) + match request.disposition {
                DeleteProfileDisposition::ReplaceWithProfile { profile_id } => seq![profile_id@],
                _ => Seq::<Seq<char>>::empty(),
            },
            PendingEqualizerOpKind::SettingsUpdate { default_profile_id, .. } => match default_profile_id {
                Some(id) => seq![id@],
                None => Seq::<Seq<char>>::empty(),
            },
            PendingEqualizerOpKind::RuleCreate { rule } => rule_write_ids(rule.id@, rule.action),
            PendingEqualizerOpKind::RuleUpdate { rule_id, rule, .. } => rule_write_ids(
                rule_id@,
                rule.action,
            ),
            PendingEqualizerOpKind::RuleDelete { rule_id, .. } => seq![rule_id@],
            PendingEqualizerOpKind::RuleReorder { rules } => entity_ids(rules@),
        }
    }

    pub fn dependency_entity_ids(&self) -> (r: Vec<&str>)
        ensures
            str_views(r@) == self.dependency_ids(),
    {
        match self {
            PendingEqualizerOpKind::ProfileCreate { profile } => {
                let mut v: Vec<&str> = Vec::new();
                v.push(profile.id.as_str());
                assert(str_views(v@) =~= self.dependency_ids());
                v
            },
            PendingEqualizerOpKind::ProfileUpdate { profile_id, .. } => {
                let mut v: Vec<&str> = Vec::new();
                v.push(profile_id.as_str());
                assert(str_views(v@) =~= self.dependency_ids());
                v
            },
            PendingEqualizerOpKind::ProfileDelete { request } => {
                let mut v: Vec<&str> = Vec::new();
                v.push(request.profile_id.as_str());
                let n = request.referencing_rules.len();
                for i in 0..n
                    invariant
                        n == request.referencing_rules@.len(),
                        str_views(v@) =~= seq![request.profile_id@] + entity_ids(
                            request.referencing_rules@.take(i as int),
                        ),
                {
                    let ghost before = v@;
                    v.push(request.referencing_rules[i].id.as_str());
                    let ghost e = request.referencing_rules@[i as int];
                    assert(str_views(v@) =~= str_views(before).push(e.id@));
                    assert(request.referencing_rules@.take(i + 1) =~= request.referencing_rules@.take(
                        i as int,
                    ).push(e));
                    assert(entity_ids(request.referencing_rules@.take(i + 1)) =~= entity_ids(
                        request.referencing_rules@.take(i as int),
                    ).push(e.id@));
                    assert(str_views(v@) =~= seq![request.profile_id@] + entity_ids(
                        request.referencing_rules@.take(i + 1),
                    ));
                }
                assert(request.referencing_rules@.take(n as int) =~= request.referencing_rules@);
                match &request.disposition {
                    DeleteProfileDisposition::ReplaceWithProfile { profile_id } => {
                        v.push(profile_id.as_str());
                    },
                    _ => {},
                }
                assert(str_views(v@) =~= self.dependency_ids());
                v
            },
            PendingEqualizerOpKind::SettingsUpdate { default_profile_id, .. } => {
                let mut v: Vec<&str> = Vec::new();
                match default_profile_id {
                    Some(id) => v.push(id.as_str()),
                    None => {},
                }
                assert(str_views(v@) =~= self.dependency_ids());
                v
            },
            PendingEqualizerOpKind::RuleCreate { rule } => {
                let mut v: Vec<&str> = Vec::new();
                v.push(rule.id.as_str());
                match rule.action.profile_id() {
                    Some(p) => v.push(p),
                    None => {},
                }
                assert(str_views(v@) =~= self.dependency_ids());
                v
            },
            PendingEqualizerOpKind::RuleUpdate { rule_id, rule, .. } => {
                let mut v: Vec<&str> = Vec::new();
                v.push(rule_id.as_str());
                match rule.action.profile_id() {
                    Some(p) => v.push(p),
                    None => {},
                }
                assert(str_views(v@) =~= self.dependency_ids());
                v
            },
            PendingEqualizerOpKind::RuleDelete { rule_id, .. } => {
                let mut v: Vec<&str> = Vec::new();
                v.push(rule_id.as_str());
                assert(str_views(v@) =~= self.dependency_ids());
                v
            },
            PendingEqualizerOpKind::RuleReorder { rules } => {
                let mut v: Vec<&str> = Vec::new();
                let n = rules.len();
                for i in 0..n
                    invariant
                        n == rules@.len(),
                        str_views(v@) =~= entity_ids(rules@.take(i as int)),
                {
                    let ghost before = v@;
                    v.push(rules[i].id.as_str());
                    let ghost e = rules@[i as int];
                    assert(str_views(v@) =~= str_views(before).push(e.id@));
                    assert(rules@.take(i + 1) =~= rules@.take(i as int).push(e));
                    assert(entity_ids(rules@.take(i + 1)) =~= entity_ids(rules@.take(i as int)).push(
                        e.id@,
                    ));
                    assert(str_views(v@) =~= entity_ids(rules@.take(i + 1)));
                }
                assert(rules@.take(n as int) =~= rules@);
                v
            },
        }
    }
}

// ---------------------------------------------------------------------------
// Retargeting to recovery ids
// ---------------------------------------------------------------------------

/// `b` is the action `a` with its profile remapped through `m`.
pub open spec fn action_remapped(a: RuleAction, b: RuleAction, m: Seq<(String, String)>) -> bool {
    b.profile_id_spec() == remapped_action(m, a)
}

/// `b` is the profile input `a` with its id remapped through `m`.
pub open spec fn profile_input_remapped<S>(
    a: EqualizerProfileInput<S>,
    b: EqualizerProfileInput<S>,
    m: Seq<(String, String)>,
) -> bool {
    &&& b.id@ == remapped(m, a.id@)
    &&& b.name == a.name
    &&& b.format_version == a.format_version
    &&& b.sound == a.sound
    &&& b.auto_headroom_enabled == a.auto_headroom_enabled
}

/// `b` is the rule input `a` with its id remapped through `rule_ids` and
/// its profile through `profile_ids`.
pub open spec fn rule_input_remapped(
    a: EqualizerDeviceRuleInput,
    b: EqualizerDeviceRuleInput,
    profile_ids: Seq<(String, String)>,
    rule_ids: Seq<(String, String)>,
) -> bool {
    &&& b.id@ == remapped(rule_ids, a.id@)
    &&& b.label == a.label
    &&& action_remapped(a.action, b.action, profile_ids)
    &&& b.selectors == a.selectors
    &&& b.enabled == a.enabled
}

/// `b` is `a` with every id remapped through `m`, revisions kept.
pub open spec fn revisions_remapped(
    a: Seq<EntityRevision>,
    b: Seq<EntityRevision>,
    m: Seq<(String, String)>,
) -> bool {
    &&& b.len() == a.len()
    &&& forall|i: int|
        0 <= i < a.len() ==> (#[trigger] b[i]).id@ == remapped(m, a[i].id@) && b[i].expected_revision
            == a[i].expected_revision
}

/// `b` is the request `a` retargeted: the profile, its referencing rules and
/// its replacement profile remapped, and a local binding moved to the
/// local-only layer with its profile remapped.
pub open spec fn request_remapped(
    a: DeleteProfileRequest,
    b: DeleteProfileRequest,
    profile_ids: Seq<(String, String)>,
    rule_ids: Seq<(String, String)>,
) -> bool {
    &&& b.profile_id@ == remapped(profile_ids, a.profile_id@)
    &&& b.expected_revision == a.expected_revision
    &&& b.expected_settings_revision == a.expected_settings_revision
    &&& revisions_remapped(a.referencing_rules@, b.referencing_rules@, rule_ids)
    &&& match a.disposition {
        DeleteProfileDisposition::ReplaceWithProfile { profile_id } => b.disposition matches DeleteProfileDisposition::ReplaceWithProfile {
            profile_id: q,
        } && q@ == remapped(profile_ids, profile_id@),
        DeleteProfileDisposition::RejectIfReferenced => b.disposition is RejectIfReferenced,
        DeleteProfileDisposition::ReplaceWithFlat => b.disposition is ReplaceWithFlat,
    }
    &&& match a.local_binding_disposition {
        Some(t) => b.local_binding_disposition matches Some(u) && u.layer == ProfileLayer::LocalOnly
            && action_remapped(t.action, u.action, profile_ids),
        None => b.local_binding_disposition is None,
    }
}

fn remap_revisions(v: &mut Vec<EntityRevision>, m: &Vec<(String, String)>)
    ensures
        revisions_remapped(old(v)@, final(v)@, m@),
{
    let mut out: Vec<EntityRevision> = Vec::new();
    let n = v.len();
    for i in 0..n
        invariant
            n == v@.len(),
            out@.len() == i,
            forall|j: int|
                0 <= j < i ==> (#[trigger] out@[j]).id@ == remapped(m@, v@[j].id@)
                    && out@[j].expected_revision == v@[j].expected_revision,
    {
        let mut id = v[i].id.clone();
        remap_id(&mut id, m);
        out.push(EntityRevision { id, expected_revision: v[i].expected_revision });
    }
    *v = out;
}

impl<S> PendingEqualizerOpKind<S> {
    /// `b` is the operation `a` retargeted through the recovery id maps.
    pub open spec fn is_remapped(
        a: Self,
        b: Self,
        profile_ids: Seq<(String, String)>,
        rule_ids: Seq<(String, String)>,
    ) -> bool {
        match a {
            PendingEqualizerOpKind::ProfileCreate { profile } => b matches PendingEqualizerOpKind::ProfileCreate {
                profile: q,
            } && profile_input_remapped(profile, q, profile_ids),
            PendingEqualizerOpKind::ProfileUpdate { profile_id, expected_revision, profile } => b matches PendingEqualizerOpKind::ProfileUpdate {
                profile_id: id2,
                expected_revision: r2,
                profile: q,
            } && id2@ == remapped(profile_ids, profile_id@) && r2 == expected_revision
                && profile_input_remapped(profile, q, profile_ids),
            PendingEqualizerOpKind::ProfileDelete { request } => b matches PendingEqualizerOpKind::ProfileDelete {
                request: q,
            } && request_remapped(request, q, profile_ids, rule_ids),
            PendingEqualizerOpKind::SettingsUpdate { expected_settings_revision, default_profile_id } => b matches PendingEqualizerOpKind::SettingsUpdate {
                expected_settings_revision: r2,
                default_profile_id: d2,
            } && r2 == expected_settings_revision && match default_profile_id {
                Some(id) => d2 matches Some(id2) && id2@ == remapped(profile_ids, id@),
                None => d2 is None,
            },
            PendingEqualizerOpKind::RuleCreate { rule } => b matches PendingEqualizerOpKind::RuleCreate {
                rule: q,
            } && rule_input_remapped(rule, q, profile_ids, rule_ids),
            PendingEqualizerOpKind::RuleUpdate { rule_id, expected_revision, rule } => b matches PendingEqualizerOpKind::RuleUpdate {
                rule_id: id2,
                expected_revision: r2,
                rule: q,
            } && id2@ == remapped(rule_ids, rule_id@) && r2 == expected_revision
                && rule_input_remapped(rule, q, profile_ids, rule_ids),
            PendingEqualizerOpKind::RuleDelete { rule_id, expected_revision } => b matches PendingEqualizerOpKind::RuleDelete {
                rule_id: id2,
                expected_revision: r2,
            } && id2@ == remapped(rule_ids, rule_id@) && r2 == expected_revision,
            PendingEqualizerOpKind::RuleReorder { rules } => b matches PendingEqualizerOpKind::RuleReorder {
                rules: q,
            } && revisions_remapped(rules@, q@, rule_ids),
        }
    }

    /// Retarget a server-based operation to the collision-safe ids allocated
    /// while cloning the last clean snapshot into the local-only recovery
    /// layer. Each map holds an old id at most once.
    pub fn remap_for_local_recovery(
        &mut self,
        profile_ids: &Vec<(String, String)>,
        rule_ids: &Vec<(String, String)>,
    )
        ensures
            Self::is_remapped(*old(self), *final(self), profile_ids@, rule_ids@),
    {
        match self {
            PendingEqualizerOpKind::ProfileCreate { profile } => {
                remap_id(&mut profile.id, profile_ids);
            },
            PendingEqualizerOpKind::ProfileUpdate { profile_id, profile, .. } => {
                remap_id(profile_id, profile_ids);
                remap_id(&mut profile.id, profile_ids);
            },
            PendingEqualizerOpKind::ProfileDelete { request } => {
                remap_id(&mut request.profile_id, profile_ids);
                remap_revisions(&mut request.referencing_rules, rule_ids);
                match &mut request.disposition {
                    DeleteProfileDisposition::ReplaceWithProfile { profile_id } => {
                        remap_id(profile_id, profile_ids);
                    },
                    _ => {},
                }
                match &mut request.local_binding_disposition {
                    Some(target) => {
                        target.layer = ProfileLayer::LocalOnly;
                        remap_action(&mut target.action, profile_ids);
                    },
                    None => {},
                }
            },
            PendingEqualizerOpKind::SettingsUpdate { default_profile_id, .. } => {
                match default_profile_id {
                    Some(id) => remap_id(id, profile_ids),
                    None => {},
                }
            },
            PendingEqualizerOpKind::RuleCreate { rule } => {
                remap_id(&mut rule.id, rule_ids);
                remap_action(&mut rule.action, profile_ids);
            },
            PendingEqualizerOpKind::RuleUpdate { rule_id, rule, .. } => {
                remap_id(rule_id, rule_ids);
                remap_id(&mut rule.id, rule_ids);
                remap_action(&mut rule.action, profile_ids);
            },
            PendingEqualizerOpKind::RuleDelete { rule_id, .. } => {
                remap_id(rule_id, rule_ids);
            },
            PendingEqualizerOpKind::RuleReorder { rules } => {
                remap_revisions(rules, rule_ids);
            },
        }
    }
}

// ---------------------------------------------------------------------------
// Finding and removing profiles and rules by id
// ---------------------------------------------------------------------------

pub open spec fn has_profile<S>(ps: Seq<EqualizerProfile<S>>, id: Seq<char>) -> bool {
    exists|i: int| 0 <= i < ps.len() && (#[trigger] ps[i]).id@ == id
}

/// `i` is the first profile with that id.
pub open spec fn is_first_profile<S>(ps: Seq<EqualizerProfile<S>>, id: Seq<char>, i: int) -> bool {
    &&& 0 <= i < ps.len()
    &&& ps[i].id@ == id
    &&& forall|j: int| 0 <= j < i ==> (#[trigger] ps[j]).id@ != id
}

/// Index of the first profile with that id (meaningful when there is one).
pub open spec fn first_profile<S>(ps: Seq<EqualizerProfile<S>>, id: Seq<char>) -> int {
    choose|i: int| is_first_profile(ps, id, i)
}

pub proof fn lemma_first_profile<S>(ps: Seq<EqualizerProfile<S>>, id: Seq<char>, i: int)
    requires
        is_first_profile(ps, id, i),
    ensures
        first_profile(ps, id) == i,
        has_profile(ps, id),
{
    let k = first_profile(ps, id);
    assert(is_first_profile(ps, id, k));
    if k < i {
        assert(ps[k].id@ != id);
    } else if k > i {
        assert(ps[i].id@ != id);
    }
}

/// The index of the first profile with that id, if any.
pub fn find_profile<S>(ps: &[EqualizerProfile<S>], id: &String) -> (r: Option<usize>)
    ensures
        match r {
            Some(i) => is_first_profile(ps@, id@, i as int),
            None => !has_profile(ps@, id@),
        },
{
    let n = ps.len();
    for i in 0..n
        invariant
            n == ps@.len(),
            forall|j: int| 0 <= j < i ==> (#[trigger] ps@[j]).id@ != id@,
    {
        if ps[i].id == *id {
            return Some(i);
        }
    }
    None
}

/// The profiles without those that have that id, in order.
pub open spec fn profiles_without<S>(ps: Seq<EqualizerProfile<S>>, id: Seq<char>) -> Seq<
    EqualizerProfile<S>,
>
    decreases ps.len(),
{
    if ps.len() == 0 {
        ps
    } else {
        let rest = profiles_without(ps.drop_last(), id);
        if ps.last().id@ == id {
            rest
        } else {
            rest.push(ps.last())
        }
    }
}

fn remove_profiles<S>(ps: &mut Vec<EqualizerProfile<S>>, id: &String)
    ensures
        final(ps)@ == profiles_without(old(ps)@, id@),
{
    let ghost orig = ps@;
    let mut i: usize = 0;
    let mut k: usize = 0;
    let n = ps.len();
    assert(orig.take(0) =~= Seq::<EqualizerProfile<S>>::empty());
    assert(orig.skip(0) =~= orig);
    while k < n
        invariant
            n == orig.len(),
            k <= n,
            i <= k,
            profiles_without(orig.take(k as int), id@).len() == i,
            ps@ =~= profiles_without(orig.take(k as int), id@) + orig.skip(k as int),
        decreases n - k,
    {
        let ghost before = ps@;
        assert(orig.take(k + 1).drop_last() =~= orig.take(k as int));
        assert(orig.take(k + 1).last() == orig[k as int]);
        assert(before[i as int] == orig[k as int]);
        if ps[i].id == *id {
            ps.remove(i);
            assert(ps@ =~= profiles_without(orig.take(k + 1), id@) + orig.skip(k + 1));
        } else {
            assert(ps@ =~= profiles_without(orig.take(k + 1), id@) + orig.skip(k + 1));
            i = i + 1;
        }
        k = k + 1;
    }
    assert(orig.take(n as int) =~= orig);
    assert(orig.skip(n as int) =~= Seq::<EqualizerProfile<S>>::empty());
}

pub open spec fn has_rule(rs: Seq<EqualizerDeviceRule>, id: Seq<char>) -> bool {
    exists|i: int| 0 <= i < rs.len() && (#[trigger] rs[i]).id@ == id
}

/// `i` is the first rule with that id.
pub open spec fn is_first_rule(rs: Seq<EqualizerDeviceRule>, id: Seq<char>, i: int) -> bool {
    &&& 0 <= i < rs.len()
    &&& rs[i].id@ == id
    &&& forall|j: int| 0 <= j < i ==> (#[trigger] rs[j]).id@ != id
}

/// Index of the first rule with that id (meaningful when there is one).
pub open spec fn first_rule(rs: Seq<EqualizerDeviceRule>, id: Seq<char>) -> int {
    choose|i: int| is_first_rule(rs, id, i)
}

pub proof fn lemma_first_rule(rs: Seq<EqualizerDeviceRule>, id: Seq<char>, i: int)
    requires
        is_first_rule(rs, id, i),
    ensures
        first_rule(rs, id) == i,
        has_rule(rs, id),
{
    let k = first_rule(rs, id);
    assert(is_first_rule(rs, id, k));
    if k < i {
        assert(rs[k].id@ != id);
    } else if k > i {
        assert(rs[i].id@ != id);
    }
}

proof fn lemma_first_rule_below(rs: Seq<EqualizerDeviceRule>, id: Seq<char>, w: int)
    requires
        0 <= w < rs.len(),
        rs[w].id@ == id,
    ensures
        is_first_rule(rs, id, first_rule(rs, id)),
    decreases w,
{
    if exists|j: int| 0 <= j < w && (#[trigger] rs[j]).id@ == id {
        let j = choose|j: int| 0 <= j < w && (#[trigger] rs[j]).id@ == id;
        lemma_first_rule_below(rs, id, j);
    } else {
        lemma_first_rule(rs, id, w);
    }
}

/// When a rule has that id, `first_rule` is the first such.
pub proof fn lemma_has_rule_first(rs: Seq<EqualizerDeviceRule>, id: Seq<char>)
    requires
        has_rule(rs, id),
    ensures
        is_first_rule(rs, id, first_rule(rs, id)),
{
    let w = choose|i: int| 0 <= i < rs.len() && (#[trigger] rs[i]).id@ == id;
    lemma_first_rule_below(rs, id, w);
}

/// The index of the first rule with that id, if any.
pub fn find_rule(rs: &[EqualizerDeviceRule], id: &String) -> (r: Option<usize>)
    ensures
        match r {
            Some(i) => is_first_rule(rs@, id@, i as int),
            None => !has_rule(rs@, id@),
        },
{
    let n = rs.len();
    for i in 0..n
        invariant
            n == rs@.len(),
            forall|j: int| 0 <= j < i ==> (#[trigger] rs@[j]).id@ != id@,
    {
        if rs[i].id == *id {
            return Some(i);
        }
    }
    None
}

/// The rules without those that have that id, in order.
pub open spec fn rules_without(rs: Seq<EqualizerDeviceRule>, id: Seq<char>) -> Seq<
    EqualizerDeviceRule,
>
    decreases rs.len(),
{
    if rs.len() == 0 {
        rs
    } else {
        let rest = rules_without(rs.drop_last(), id);
        if rs.last().id@ == id {
            rest
        } else {
            rest.push(rs.last())
        }
    }
}

fn remove_rules(rs: &mut Vec<EqualizerDeviceRule>, id: &String)
    ensures
        final(rs)@ == rules_without(old(rs)@, id@),
{
    let ghost orig = rs@;
    let mut i: usize = 0;
    let mut k: usize = 0;
    let n = rs.len();
    assert(orig.take(0) =~= Seq::<EqualizerDeviceRule>::empty());
    assert(orig.skip(0) =~= orig);
    while k < n
        invariant
            n == orig.len(),
            k <= n,
            i <= k,
            rules_without(orig.take(k as int), id@).len() == i,
            rs@ =~= rules_without(orig.take(k as int), id@) + orig.skip(k as int),
        decreases n - k,
    {
        let ghost before = rs@;
        assert(orig.take(k + 1).drop_last() =~= orig.take(k as int));
        assert(orig.take(k + 1).last() == orig[k as int]);
        assert(before[i as int] == orig[k as int]);
        if rs[i].id == *id {
            rs.remove(i);
            assert(rs@ =~= rules_without(orig.take(k + 1), id@) + orig.skip(k + 1));
        } else {
            assert(rs@ =~= rules_without(orig.take(k + 1), id@) + orig.skip(k + 1));
            i = i + 1;
        }
        k = k + 1;
    }
    assert(orig.take(n as int) =~= orig);
    assert(orig.skip(n as int) =~= Seq::<EqualizerDeviceRule>::empty());
}

// ---------------------------------------------------------------------------
// Laying queued operations over the server's state
// ---------------------------------------------------------------------------

/// `p` is the optimistic profile shown for `input`: the input's fields and a
/// clone of its sound, at `revision`, with the given timestamps.
pub open spec fn profile_overlay<S: Clone>(
    p: EqualizerProfile<S>,
    input: EqualizerProfileInput<S>,
    revision: Revision,
    created_at: Seq<char>,
    updated_at: Seq<char>,
) -> bool {
    &&& p.id@ == input.id@
    &&& p.name@ == input.name@
    &&& p.format_version == input.format_version
    &&& cloned(input.sound, p.sound)
    &&& p.auto_headroom_enabled == input.auto_headroom_enabled
    &&& p.revision == revision
    &&& p.created_at@ == created_at
    &&& p.updated_at@ == updated_at
}

/// The optimistic profile for a queued create or update.
pub fn profile_to_overlay<S: Clone>(
    input: &EqualizerProfileInput<S>,
    revision: Revision,
    created_at: &str,
    updated_at: &str,
) -> (p: EqualizerProfile<S>)
    ensures
        profile_overlay(p, *input, revision, created_at@, updated_at@),
{
    EqualizerProfile {
        id: input.id.clone(),
        name: input.name.clone(),
        format_version: input.format_version,
        sound: input.sound.clone(),
        auto_headroom_enabled: input.auto_headroom_enabled,
        revision,
        created_at: string_from_chars(&chars_of(created_at)),
        updated_at: string_from_chars(&chars_of(updated_at)),
    }
}

/// The smallest priority of a non-empty rule list.
pub open spec fn min_priority(rs: Seq<EqualizerDeviceRule>) -> int
    decreases rs.len(),
{
    if rs.len() <= 1 {
        rs[0].priority as int
    } else {
        let m = min_priority(rs.drop_last());
        if rs.last().priority < m {
            rs.last().priority as int
        } else {
            m
        }
    }
}

/// A new rule goes below every other: one less than the smallest priority
/// (0 when there are no rules).
pub open spec fn new_rule_priority(rs: Seq<EqualizerDeviceRule>) -> int {
    if rs.len() == 0 {
        0
    } else {
        min_priority(rs) - 1
    }
}

/// The priority a new rule takes: below every existing one.
pub fn lowest_priority_below(rs: &[EqualizerDeviceRule]) -> (p: i32)
    requires
        rs@.len() > 0 ==> min_priority(rs@) > i32::MIN,
    ensures
        p == new_rule_priority(rs@),
{
    let n = rs.len();
    if n == 0 {
        return 0;
    }
    let mut m = rs[0].priority;
    assert(rs@.take(1).drop_last() =~= Seq::<EqualizerDeviceRule>::empty());
    assert(min_priority(rs@.take(1)) == rs@[0].priority);
    let mut i: usize = 1;
    while i < n
        invariant
            1 <= i <= n,
            n == rs@.len(),
            m == min_priority(rs@.take(i as int)),
        decreases n - i,
    {
        assert(rs@.take(i + 1).drop_last() =~= rs@.take(i as int));
        if rs[i].priority < m {
            m = rs[i].priority;
        }
        i = i + 1;
    }
    assert(rs@.take(n as int) =~= rs@);
    m - 1
}

/// The rule `r` with another action.
pub open spec fn with_action(r: EqualizerDeviceRule, a: RuleAction) -> EqualizerDeviceRule {
    EqualizerDeviceRule { action: a, ..r }
}

/// The rule `r` with another priority.
pub open spec fn with_priority(r: EqualizerDeviceRule, p: int) -> EqualizerDeviceRule {
    EqualizerDeviceRule { priority: p as i32, ..r }
}

/// The rules after a reorder of the first `n` expected entries: each entry
/// gives the first rule with its id the priority `count - index`, later
/// entries winning.
pub open spec fn reordered(rs: Seq<EqualizerDeviceRule>, exp: Seq<EntityRevision>, n: nat) -> Seq<
    EqualizerDeviceRule,
>
    decreases n,
{
    if n == 0 {
        rs
    } else {
        let prev = reordered(rs, exp, (n - 1) as nat);
        let id = exp[n - 1].id@;
        if has_rule(prev, id) {
            let i = first_rule(prev, id);
            prev.update(i, with_priority(prev[i], exp.len() - (n - 1)))
        } else {
            prev
        }
    }
}

/// The profile that replaces a deleted one, if the request names one.
pub open spec fn replacement(d: DeleteProfileDisposition) -> Option<String> {
    match d {
        DeleteProfileDisposition::ReplaceWithProfile { profile_id } => Some(profile_id),
        _ => None,
    }
}

/// A rule's action once profile `deleted` is gone: pointed at the
/// replacement, or bypass, if it applied the deleted profile.
pub open spec fn action_after_delete(a: RuleAction, deleted: Seq<char>, rep: Option<String>) -> RuleAction {
    if a.profile_id_spec() == Some(deleted) {
        match rep {
            Some(p) => RuleAction::Profile { profile_id: p },
            None => RuleAction::Bypass,
        }
    } else {
        a
    }
}

/// The state after a profile delete: the profile gone, the default and the
/// rules that used it moved to the replacement (or none / bypass).
pub open spec fn deleted_into<S>(st: EqualizerState<S>, out: EqualizerState<S>, request: DeleteProfileRequest) -> bool {
    let deleted = request.profile_id@;
    let rep = replacement(request.disposition);
    &&& out.state_format_version == st.state_format_version
    &&& out.state_revision == st.state_revision
    &&& out.settings_revision == st.settings_revision
    &&& out.default_profile_id == match st.default_profile_id {
        Some(d) => if d@ == deleted {
            rep
        } else {
            st.default_profile_id
        },
        None => None,
    }
    &&& out.profiles@ == profiles_without(st.profiles@, deleted)
    &&& out.device_rules@.len() == st.device_rules@.len()
    &&& forall|j: int|
        0 <= j < st.device_rules@.len() ==> #[trigger] out.device_rules@[j] == with_action(
            st.device_rules@[j],
            action_after_delete(st.device_rules@[j].action, deleted, rep),
        )
}

/// Everything but the profiles is as before.
pub open spec fn same_but_profiles<S>(st: EqualizerState<S>, out: EqualizerState<S>) -> bool {
    &&& out.state_format_version == st.state_format_version
    &&& out.state_revision == st.state_revision
    &&& out.settings_revision == st.settings_revision
    &&& out.default_profile_id == st.default_profile_id
    &&& out.device_rules == st.device_rules
}

/// Everything but the rules is as before.
pub open spec fn same_but_rules<S>(st: EqualizerState<S>, out: EqualizerState<S>) -> bool {
    &&& out.state_format_version == st.state_format_version
    &&& out.state_revision == st.state_revision
    &&& out.settings_revision == st.settings_revision
    &&& out.default_profile_id == st.default_profile_id
    &&& out.profiles == st.profiles
}

fn copy_opt_string(o: &Option<String>) -> (r: Option<String>)
    ensures
        r == *o,
{
    match o {
        Some(s) => Some(s.clone()),
        None => None,
    }
}

fn missing_text(prefix: &str, id: &str) -> (out: String)
    ensures
        out@ == prefix@ + id@ + " missing"@,
{
    let mut v = chars_of(prefix);
    push_str(&mut v, id);
    push_str(&mut v, " missing");
    string_from_chars(&v)
}

fn apply_profile_delete<S>(state: &mut EqualizerState<S>, request: &DeleteProfileRequest)
    ensures
        deleted_into(*old(state), *final(state), *request),
{
    let ghost st = *state;
    let deleted = &request.profile_id;
    let rep: Option<String> = match &request.disposition {
        DeleteProfileDisposition::ReplaceWithProfile { profile_id } => Some(profile_id.clone()),
        _ => None,
    };
    assert(rep == replacement(request.disposition));
    let is_default = match &state.default_profile_id {
        Some(d) => *d == *deleted,
        None => false,
    };
    if is_default {
        state.default_profile_id = copy_opt_string(&rep);
    }
    let n = state.device_rules.len();
    for j in 0..n
        invariant
            n == st.device_rules@.len(),
            state.device_rules@.len() == n,
            state.state_format_version == st.state_format_version,
            state.state_revision == st.state_revision,
            state.settings_revision == st.settings_revision,
            state.profiles == st.profiles,
            state.default_profile_id == match st.default_profile_id {
                Some(d) => if d@ == deleted@ {
                    rep
                } else {
                    st.default_profile_id
                },
                None => None,
            },
            rep == replacement(request.disposition),
            forall|k: int|
                0 <= k < j ==> #[trigger] state.device_rules@[k] == with_action(
                    st.device_rules@[k],
                    action_after_delete(st.device_rules@[k].action, deleted@, rep),
                ),
            forall|k: int| j <= k < n ==> #[trigger] state.device_rules@[k] == st.device_rules@[k],
    {
        let hit = match &state.device_rules[j].action {
            RuleAction::Profile { profile_id } => *profile_id == *deleted,
            RuleAction::Bypass => false,
        };
        if hit {
            let a = match &rep {
                Some(p) => RuleAction::Profile { profile_id: p.clone() },
                None => RuleAction::Bypass,
            };
            state.device_rules[j].action = a;
        }
    }
    remove_profiles(&mut state.profiles, deleted);
}

impl<S: Clone> PendingEqualizerOpKind<S> {
    /// `out` (with result `r`) is `st` with this operation laid over it at
    /// time `now`. No server revision is invented: a created profile or rule
    /// shows revision 0, an updated one keeps the revision it had.
    pub open spec fn materialized(
        op: Self,
        st: EqualizerState<S>,
        out: EqualizerState<S>,
        now: Seq<char>,
        r: Result<(), AppError>,
    ) -> bool {
        match op {
            PendingEqualizerOpKind::ProfileCreate { profile } => r is Ok && if has_profile(
                st.profiles@,
                profile.id@,
            ) {
                out == st
            } else {
                &&& same_but_profiles(st, out)
                &&& out.profiles@.len() == st.profiles@.len() + 1
                &&& out.profiles@.drop_last() == st.profiles@
                &&& profile_overlay(out.profiles@.last(), profile, Revision(0), now, now)
            },
            PendingEqualizerOpKind::ProfileUpdate { profile_id, profile, .. } => if has_profile(
                st.profiles@,
                profile_id@,
            ) {
                let i = first_profile(st.profiles@, profile_id@);
                &&& r is Ok
                &&& same_but_profiles(st, out)
                &&& out.profiles@.len() == st.profiles@.len()
                &&& forall|j: int|
                    0 <= j < st.profiles@.len() && j != i ==> #[trigger] out.profiles@[j]
                        == st.profiles@[j]
                &&& profile_overlay(
                    out.profiles@[i],
                    profile,
                    st.profiles@[i].revision,
                    st.profiles@[i].created_at@,
                    now,
                )
            } else {
                &&& out == st
                &&& r matches Err(AppError::Internal(m)) && m@ == "pending profile "@ + profile_id@
                    + " missing"@
            },
            PendingEqualizerOpKind::ProfileDelete { request } => r is Ok && deleted_into(st, out, request),
            PendingEqualizerOpKind::SettingsUpdate { default_profile_id, .. } => {
                &&& r is Ok
                &&& out == (EqualizerState { default_profile_id, ..st })
            },
            PendingEqualizerOpKind::RuleCreate { rule } => r is Ok && if has_rule(
                st.device_rules@,
                rule.id@,
            ) {
                out == st
            } else {
                &&& same_but_rules(st, out)
                &&& out.device_rules@.len() == st.device_rules@.len() + 1
                &&& out.device_rules@.drop_last() == st.device_rules@
                &&& rule_of_input(
                    out.device_rules@.last(),
                    rule,
                    Revision(0),
                    new_rule_priority(st.device_rules@) as i32,
                )
            },
            PendingEqualizerOpKind::RuleUpdate { rule_id, rule, .. } => if has_rule(
                st.device_rules@,
                rule_id@,
            ) {
                let i = first_rule(st.device_rules@, rule_id@);
                &&& r is Ok
                &&& same_but_rules(st, out)
                &&& out.device_rules@.len() == st.device_rules@.len()
                &&& forall|j: int|
                    0 <= j < st.device_rules@.len() && j != i ==> #[trigger] out.device_rules@[j]
                        == st.device_rules@[j]
                &&& rule_of_input(
                    out.device_rules@[i],
                    rule,
                    st.device_rules@[i].revision,
                    st.device_rules@[i].priority,
                )
            } else {
                &&& out == st
                &&& r matches Err(AppError::Internal(m)) && m@ == "pending rule "@ + rule_id@
                    + " missing"@
            },
            PendingEqualizerOpKind::RuleDelete { rule_id, .. } => {
                &&& r is Ok
                &&& same_but_rules(st, out)
                &&& out.device_rules@ == rules_without(st.device_rules@, rule_id@)
            },
            PendingEqualizerOpKind::RuleReorder { rules } => {
                &&& r is Ok
                &&& same_but_rules(st, out)
                &&& out.device_rules@ == reordered(st.device_rules@, rules@, rules@.len())
            },
        }
    }

    /// What laying the operation over `st` asks: a new rule's priority must
    /// stay above `i32::MIN`, and a reorder must be countable in an `i32`.
    pub open spec fn can_materialize(op: Self, st: EqualizerState<S>) -> bool {
        match op {
            PendingEqualizerOpKind::RuleCreate { rule } => !has_rule(st.device_rules@, rule.id@)
                && st.device_rules@.len() > 0 ==> min_priority(st.device_rules@) > i32::MIN,
            PendingEqualizerOpKind::RuleReorder { rules } => rules@.len() <= i32::MAX,
            _ => true,
        }
    }

    /// Lay one queued operation over the clean server mirror, stamping a
    /// created or updated profile with `now`.
    pub fn materialize_at(&self, state: &mut EqualizerState<S>, now: &str) -> (r: Result<(), AppError>)
        requires
            Self::can_materialize(*self, *old(state)),
        ensures
            Self::materialized(*self, *old(state), *final(state), now@, r),
    {
        let ghost st = *state;
        match self {
            PendingEqualizerOpKind::ProfileCreate { profile } => {
                match find_profile(&state.profiles, &profile.id) {
                    Some(i) => {
                        proof {
                            lemma_first_profile(st.profiles@, profile.id@, i as int);
                        }
                    },
                    None => {
                        state.profiles.push(profile_to_overlay(profile, Revision(0), now, now));
                        assert(state.profiles@.drop_last() =~= st.profiles@);
                    },
                }
                Ok(())
            },
            PendingEqualizerOpKind::ProfileUpdate { profile_id, profile, .. } => {
                match find_profile(&state.profiles, profile_id) {
                    Some(i) => {
                        proof {
                            lemma_first_profile(st.profiles@, profile_id@, i as int);
                        }
                        let revision = state.profiles[i].revision;
                        let created = state.profiles[i].created_at.clone();
                        let p = profile_to_overlay(profile, revision, created.as_str(), now);
                        state.profiles.set(i, p);
                        Ok(())
                    },
                    None => Err(AppError::Internal(missing_text("pending profile ", profile_id.as_str()))),
                }
            },
            PendingEqualizerOpKind::ProfileDelete { request } => {
                apply_profile_delete(state, request);
                Ok(())
            },
            PendingEqualizerOpKind::SettingsUpdate { default_profile_id, .. } => {
                state.default_profile_id = copy_opt_string(default_profile_id);
                Ok(())
            },
            PendingEqualizerOpKind::RuleCreate { rule } => {
                match find_rule(&state.device_rules, &rule.id) {
                    Some(i) => {
                        proof {
                            lemma_first_rule(st.device_rules@, rule.id@, i as int);
                        }
                    },
                    None => {
                        let priority = lowest_priority_below(&state.device_rules);
                        state.device_rules.push(rule_to_overlay(rule, Revision(0), priority));
                        assert(state.device_rules@.drop_last() =~= st.device_rules@);
                    },
                }
                Ok(())
            },
            PendingEqualizerOpKind::RuleUpdate { rule_id, rule, .. } => {
                match find_rule(&state.device_rules, rule_id) {
                    Some(i) => {
                        proof {
                            lemma_first_rule(st.device_rules@, rule_id@, i as int);
                        }
                        let revision = state.device_rules[i].revision;
                        let priority = state.device_rules[i].priority;
                        state.device_rules.set(i, rule_to_overlay(rule, revision, priority));
                        Ok(())
                    },
                    None => Err(AppError::Internal(missing_text("pending rule ", rule_id.as_str()))),
                }
            },
            PendingEqualizerOpKind::RuleDelete { rule_id, .. } => {
                remove_rules(&mut state.device_rules, rule_id);
                Ok(())
            },
            PendingEqualizerOpKind::RuleReorder { rules } => {
                let n = rules.len();
                let count = n as i32;
                for index in 0..n
                    invariant
                        n == rules@.len(),
                        n <= i32::MAX,
                        count == n,
                        same_but_rules(st, *state),
                        state.device_rules@ == reordered(st.device_rules@, rules@, index as nat),
                {
                    let ghost prev = state.device_rules@;
                    match find_rule(&state.device_rules, &rules[index].id) {
                        Some(j) => {
                            proof {
                                lemma_first_rule(prev, rules@[index as int].id@, j as int);
                            }
                            state.device_rules[j].priority = count - index as i32;
                        },
                        None => {},
                    }
                    assert(state.device_rules@ =~= reordered(st.device_rules@, rules@, (index + 1) as nat));
                }
                Ok(())
            },
        }
    }

    /// Lay one queued operation over the clean server mirror, stamping a
    /// created or updated profile with the current time.
    pub fn materialize(&self, state: &mut EqualizerState<S>) -> (r: Result<(), AppError>)
        requires
            Self::can_materialize(*self, *old(state)),
        ensures
            exists|now: Seq<char>| Self::materialized(*self, *old(state), *final(state), now, r),
    {
        let now = now_string();
        let r = self.materialize_at(state, now.as_str());
        assert(Self::materialized(*self, *old(state), *state, now@, r));
        r
    }
}

// ---------------------------------------------------------------------------
// Rebasing queued operations onto a newer state
// ---------------------------------------------------------------------------

/// The revision a rebased operation expects of profile `id`: the state's,
/// when the profile is there, else the one it had.
pub open spec fn profile_base<S>(st: EqualizerState<S>, id: Seq<char>, had: Revision) -> Revision {
    if has_profile(st.profiles@, id) {
        st.profiles@[first_profile(st.profiles@, id)].revision
    } else {
        had
    }
}

/// The revision a rebased operation expects of rule `id`.
pub open spec fn rule_base(rs: Seq<EqualizerDeviceRule>, id: Seq<char>, had: Revision) -> Revision {
    if has_rule(rs, id) {
        rs[first_rule(rs, id)].revision
    } else {
        had
    }
}

/// The rules that apply profile `pid`, as expected revisions, in order.
pub open spec fn referencing(rs: Seq<EqualizerDeviceRule>, pid: Seq<char>) -> Seq<EntityRevision>
    decreases rs.len(),
{
    if rs.len() == 0 {
        Seq::empty()
    } else {
        let rest = referencing(rs.drop_last(), pid);
        if rs.last().action.profile_id_spec() == Some(pid) {
            rest.push(EntityRevision { id: rs.last().id, expected_revision: rs.last().revision })
        } else {
            rest
        }
    }
}

fn referencing_rules(rs: &Vec<EqualizerDeviceRule>, pid: &String) -> (out: Vec<EntityRevision>)
    ensures
        out@ == referencing(rs@, pid@),
{
    let mut out: Vec<EntityRevision> = Vec::new();
    let n = rs.len();
    assert(rs@.take(0) =~= Seq::<EqualizerDeviceRule>::empty());
    for i in 0..n
        invariant
            n == rs@.len(),
            out@ == referencing(rs@.take(i as int), pid@),
    {
        assert(rs@.take(i + 1).drop_last() =~= rs@.take(i as int));
        let hit = match &rs[i].action {
            RuleAction::Profile { profile_id } => *profile_id == *pid,
            RuleAction::Bypass => false,
        };
        if hit {
            out.push(EntityRevision { id: rs[i].id.clone(), expected_revision: rs[i].revision });
        }
    }
    assert(rs@.take(n as int) =~= rs@);
    out
}

impl<S> PendingEqualizerOpKind<S> {
    /// `b` is `a` rebased onto `st`: every revision it expects taken from
    /// `st` where `st` has the entity, and a profile delete's referencing
    /// rules recomputed from `st`.
    pub open spec fn is_rebased(a: Self, b: Self, st: EqualizerState<S>) -> bool {
        match a {
            PendingEqualizerOpKind::ProfileUpdate { profile_id, expected_revision, profile } => b
                == (PendingEqualizerOpKind::<S>::ProfileUpdate {
                profile_id,
                expected_revision: profile_base(st, profile_id@, expected_revision),
                profile,
            }),
            PendingEqualizerOpKind::ProfileDelete { request } => b matches PendingEqualizerOpKind::ProfileDelete {
                request: q,
            } && q.profile_id == request.profile_id && q.expected_revision == profile_base(
                st,
                request.profile_id@,
                request.expected_revision,
            ) && q.expected_settings_revision == st.settings_revision && q.referencing_rules@
                == referencing(st.device_rules@, request.profile_id@) && q.disposition
                == request.disposition && q.local_binding_disposition
                == request.local_binding_disposition,
            PendingEqualizerOpKind::SettingsUpdate { default_profile_id, .. } => b
                == (PendingEqualizerOpKind::<S>::SettingsUpdate {
                expected_settings_revision: st.settings_revision,
                default_profile_id,
            }),
            PendingEqualizerOpKind::RuleUpdate { rule_id, expected_revision, rule } => b
                == (PendingEqualizerOpKind::<S>::RuleUpdate {
                rule_id,
                expected_revision: rule_base(st.device_rules@, rule_id@, expected_revision),
                rule,
            }),
            PendingEqualizerOpKind::RuleDelete { rule_id, expected_revision } => b
                == (PendingEqualizerOpKind::<S>::RuleDelete {
                rule_id,
                expected_revision: rule_base(st.device_rules@, rule_id@, expected_revision),
            }),
            PendingEqualizerOpKind::RuleReorder { rules } => b matches PendingEqualizerOpKind::RuleReorder {
                rules: q,
            } && q@.len() == rules@.len() && forall|k: int|
                0 <= k < rules@.len() ==> (#[trigger] q@[k]) == (EntityRevision {
                    id: rules@[k].id,
                    expected_revision: rule_base(
                        st.device_rules@,
                        rules@[k].id@,
                        rules@[k].expected_revision,
                    ),
                }),
            _ => b == a,
        }
    }

    /// Point the operation's expected revisions at `state` (a newer clean
    /// server state), so it applies on top of it.
    pub fn rebase(&mut self, state: &EqualizerState<S>)
        ensures
            Self::is_rebased(*old(self), *final(self), *state),
    {
        match self {
            PendingEqualizerOpKind::ProfileUpdate { profile_id, expected_revision, .. } => {
                match find_profile(&state.profiles, profile_id) {
                    Some(i) => {
                        proof {
                            lemma_first_profile(state.profiles@, profile_id@, i as int);
                        }
                        *expected_revision = state.profiles[i].revision;
                    },
                    None => {},
                }
            },
            PendingEqualizerOpKind::ProfileDelete { request } => {
                match find_profile(&state.profiles, &request.profile_id) {
                    Some(i) => {
                        proof {
                            lemma_first_profile(state.profiles@, request.profile_id@, i as int);
                        }
                        request.expected_revision = state.profiles[i].revision;
                    },
                    None => {},
                }
                request.expected_settings_revision = state.settings_revision;
                request.referencing_rules = referencing_rules(&state.device_rules, &request.profile_id);
            },
            PendingEqualizerOpKind::SettingsUpdate { expected_settings_revision, .. } => {
                *expected_settings_revision = state.settings_revision;
            },
            PendingEqualizerOpKind::RuleUpdate { rule_id, expected_revision, .. } => {
                match find_rule(&state.device_rules, rule_id) {
                    Some(i) => {
                        proof {
                            lemma_first_rule(state.device_rules@, rule_id@, i as int);
                        }
                        *expected_revision = state.device_rules[i].revision;
                    },
                    None => {},
                }
            },
            PendingEqualizerOpKind::RuleDelete { rule_id, expected_revision } => {
                match find_rule(&state.device_rules, rule_id) {
                    Some(i) => {
                        proof {
                            lemma_first_rule(state.device_rules@, rule_id@, i as int);
                        }
                        *expected_revision = state.device_rules[i].revision;
                    },
                    None => {},
                }
            },
            PendingEqualizerOpKind::RuleReorder { rules } => {
                let ghost orig = rules@;
                let n = rules.len();
                for k in 0..n
                    invariant
                        n == orig.len(),
                        rules@.len() == n,
                        forall|j: int|
                            0 <= j < k ==> (#[trigger] rules@[j]) == (EntityRevision {
                                id: orig[j].id,
                                expected_revision: rule_base(
                                    state.device_rules@,
                                    orig[j].id@,
                                    orig[j].expected_revision,
                                ),
                            }),
                        forall|j: int| k <= j < n ==> #[trigger] rules@[j] == orig[j],
                {
                    match find_rule(&state.device_rules, &rules[k].id) {
                        Some(i) => {
                            proof {
                                lemma_first_rule(state.device_rules@, orig[k as int].id@, i as int);
                            }
                            rules[k].expected_revision = state.device_rules[i].revision;
                        },
                        None => {},
                    }
                }
            },
            PendingEqualizerOpKind::ProfileCreate { .. } => {},
            PendingEqualizerOpKind::RuleCreate { .. } => {},
        }
    }
}

// ---------------------------------------------------------------------------
// Laws of the outbox
// ---------------------------------------------------------------------------

proof fn lemma_profiles_without_from<S>(ps: Seq<EqualizerProfile<S>>, id: Seq<char>)
    ensures
        forall|i: int|
            0 <= i < profiles_without(ps, id).len() ==> ps.contains(
                #[trigger] profiles_without(ps, id)[i],
            ),
    decreases ps.len(),
{
    if ps.len() > 0 {
        let rest = profiles_without(ps.drop_last(), id);
        lemma_profiles_without_from(ps.drop_last(), id);
        assert forall|i: int| 0 <= i < profiles_without(ps, id).len() implies ps.contains(
            #[trigger] profiles_without(ps, id)[i],
        ) by {
            let x = profiles_without(ps, id)[i];
            if i < rest.len() {
                assert(x == rest[i]);
                assert(ps.drop_last().contains(x));
                let j = choose|j: int| 0 <= j < ps.drop_last().len() && ps.drop_last()[j] == x;
                assert(ps[j] == x);
            } else {
                assert(x == ps.last());
                assert(ps[ps.len() - 1] == x);
            }
        }
    }
}

proof fn lemma_rules_without_from(rs: Seq<EqualizerDeviceRule>, id: Seq<char>)
    ensures
        forall|i: int|
            0 <= i < rules_without(rs, id).len() ==> rs.contains(#[trigger] rules_without(rs, id)[i]),
    decreases rs.len(),
{
    if rs.len() > 0 {
        let rest = rules_without(rs.drop_last(), id);
        lemma_rules_without_from(rs.drop_last(), id);
        assert forall|i: int| 0 <= i < rules_without(rs, id).len() implies rs.contains(
            #[trigger] rules_without(rs, id)[i],
        ) by {
            let x = rules_without(rs, id)[i];
            if i < rest.len() {
                assert(x == rest[i]);
                assert(rs.drop_last().contains(x));
                let j = choose|j: int| 0 <= j < rs.drop_last().len() && rs.drop_last()[j] == x;
                assert(rs[j] == x);
            } else {
                assert(x == rs.last());
                assert(rs[rs.len() - 1] == x);
            }
        }
    }
}

proof fn lemma_reordered_keeps_revisions(
    rs: Seq<EqualizerDeviceRule>,
    exp: Seq<EntityRevision>,
    n: nat,
)
    ensures
        reordered(rs, exp, n).len() == rs.len(),
        forall|i: int|
            0 <= i < rs.len() ==> (#[trigger] reordered(rs, exp, n)[i]).revision == rs[i].revision,
    decreases n,
{
    if n > 0 {
        lemma_reordered_keeps_revisions(rs, exp, (n - 1) as nat);
        let prev = reordered(rs, exp, (n - 1) as nat);
        let id = exp[n - 1].id@;
        if has_rule(prev, id) {
            lemma_has_rule_first(prev, id);
        }
    }
}

/// Whether each profile and rule of `out` carries revision 0 or a revision
/// that `st` already had.
pub open spec fn no_invented_revisions<S>(st: EqualizerState<S>, out: EqualizerState<S>) -> bool {
    &&& forall|i: int|
        0 <= i < out.profiles@.len() ==> (#[trigger] out.profiles@[i]).revision == Revision(0)
            || exists|j: int|
            0 <= j < st.profiles@.len() && (#[trigger] st.profiles@[j]).revision
                == out.profiles@[i].revision
    &&& forall|i: int|
        0 <= i < out.device_rules@.len() ==> (#[trigger] out.device_rules@[i]).revision == Revision(
            0,
        ) || exists|j: int|
            0 <= j < st.device_rules@.len() && (#[trigger] st.device_rules@[j]).revision
                == out.device_rules@[i].revision
}

/// Laying a queued operation over the server's state invents no server
/// revision: every profile and rule afterwards shows revision 0 (not yet
/// on the server) or a revision the state already had.
pub proof fn law_materialize_invents_no_revision<S: Clone>(
    op: PendingEqualizerOpKind<S>,
    st: EqualizerState<S>,
    out: EqualizerState<S>,
    now: Seq<char>,
    r: Result<(), AppError>,
)
    requires
        PendingEqualizerOpKind::materialized(op, st, out, now, r),
    ensures
        no_invented_revisions(st, out),
{
    assert forall|i: int| 0 <= i < out.profiles@.len() implies (#[trigger] out.profiles@[i]).revision
        == Revision(0) || exists|j: int|
        0 <= j < st.profiles@.len() && (#[trigger] st.profiles@[j]).revision
            == out.profiles@[i].revision by {
        match op {
            PendingEqualizerOpKind::ProfileDelete { request } => {
                lemma_profiles_without_from(st.profiles@, request.profile_id@);
                let x = out.profiles@[i];
                assert(profiles_without(st.profiles@, request.profile_id@)[i] == x);
                assert(st.profiles@.contains(x));
                let j = choose|j: int| 0 <= j < st.profiles@.len() && st.profiles@[j] == x;
                assert(st.profiles@[j].revision == x.revision);
            },
            PendingEqualizerOpKind::ProfileCreate { profile } => {
                if !has_profile(st.profiles@, profile.id@) && i < st.profiles@.len() {
                    assert(out.profiles@.drop_last()[i] == out.profiles@[i]);
                    assert(st.profiles@[i] == out.profiles@[i]);
                }
            },
            PendingEqualizerOpKind::ProfileUpdate { profile_id, .. } => {
                if has_profile(st.profiles@, profile_id@) {
                    let k = first_profile(st.profiles@, profile_id@);
                    if i == k {
                        assert(st.profiles@[k].revision == out.profiles@[i].revision);
                    } else {
                        assert(st.profiles@[i] == out.profiles@[i]);
                    }
                } else {
                    assert(st.profiles@[i] == out.profiles@[i]);
                }
            },
            _ => {
                assert(st.profiles@[i] == out.profiles@[i]);
            },
        }
    }
    assert forall|i: int| 0 <= i < out.device_rules@.len() implies (
    #[trigger] out.device_rules@[i]).revision == Revision(0) || exists|j: int|
        0 <= j < st.device_rules@.len() && (#[trigger] st.device_rules@[j]).revision
            == out.device_rules@[i].revision by {
        match op {
            PendingEqualizerOpKind::RuleDelete { rule_id, .. } => {
                lemma_rules_without_from(st.device_rules@, rule_id@);
                let x = out.device_rules@[i];
                assert(rules_without(st.device_rules@, rule_id@)[i] == x);
                assert(st.device_rules@.contains(x));
                let j = choose|j: int| 0 <= j < st.device_rules@.len() && st.device_rules@[j] == x;
                assert(st.device_rules@[j].revision == x.revision);
            },
            PendingEqualizerOpKind::RuleCreate { rule } => {
                if !has_rule(st.device_rules@, rule.id@) && i < st.device_rules@.len() {
                    assert(out.device_rules@.drop_last()[i] == out.device_rules@[i]);
                    assert(st.device_rules@[i] == out.device_rules@[i]);
                }
            },
            PendingEqualizerOpKind::RuleUpdate { rule_id, .. } => {
                if has_rule(st.device_rules@, rule_id@) {
                    let k = first_rule(st.device_rules@, rule_id@);
                    if i == k {
                        assert(st.device_rules@[k].revision == out.device_rules@[i].revision);
                    } else {
                        assert(st.device_rules@[i] == out.device_rules@[i]);
                    }
                } else {
                    assert(st.device_rules@[i] == out.device_rules@[i]);
                }
            },
            PendingEqualizerOpKind::RuleReorder { rules } => {
                lemma_reordered_keeps_revisions(st.device_rules@, rules@, rules@.len());
                assert(st.device_rules@[i].revision == out.device_rules@[i].revision);
            },
            PendingEqualizerOpKind::ProfileDelete { request } => {
                assert(st.device_rules@[i].revision == out.device_rules@[i].revision);
            },
            _ => {
                assert(st.device_rules@[i] == out.device_rules@[i]);
            },
        }
    }
}

/// A queued operation that cannot be laid over the state (its profile or
/// rule is missing) leaves the state as it was.
pub proof fn law_failed_materialize_changes_nothing<S: Clone>(
    op: PendingEqualizerOpKind<S>,
    st: EqualizerState<S>,
    out: EqualizerState<S>,
    now: Seq<char>,
    r: Result<(), AppError>,
)
    requires
        PendingEqualizerOpKind::materialized(op, st, out, now, r),
        r is Err,
    ensures
        out == st,
{
}

/// Rebasing changes only the revisions an operation expects: its type, its
/// entity and its ordering group stay as they were.
pub proof fn law_rebase_keeps_identity<S>(
    a: PendingEqualizerOpKind<S>,
    b: PendingEqualizerOpKind<S>,
    st: EqualizerState<S>,
)
    requires
        PendingEqualizerOpKind::is_rebased(a, b, st),
    ensures
        b.op_type_text() == a.op_type_text(),
        b.entity() == a.entity(),
        b.group() == a.group(),
        b.dependency_ids() == a.dependency_ids() || a is ProfileDelete,
{
}

/// After a rebase, an operation on a profile or rule that the state has
/// expects that entity's current revision, and a settings write or profile
/// delete expects the current settings revision.
pub proof fn law_rebase_expects_current<S>(
    a: PendingEqualizerOpKind<S>,
    b: PendingEqualizerOpKind<S>,
    st: EqualizerState<S>,
)
    requires
        PendingEqualizerOpKind::is_rebased(a, b, st),
    ensures
        match a {
            PendingEqualizerOpKind::ProfileUpdate { profile_id, .. } => has_profile(
                st.profiles@,
                profile_id@,
            ) ==> b.expected_base() == Some(
                st.profiles@[first_profile(st.profiles@, profile_id@)].revision,
            ),
            PendingEqualizerOpKind::ProfileDelete { request } => {
                &&& has_profile(st.profiles@, request.profile_id@) ==> b.expected_base() == Some(
                    st.profiles@[first_profile(st.profiles@, request.profile_id@)].revision,
                )
                &&& b matches PendingEqualizerOpKind::ProfileDelete { request: q }
                    && q.expected_settings_revision == st.settings_revision
            },
            PendingEqualizerOpKind::SettingsUpdate { .. } => b.expected_base() == Some(
                st.settings_revision,
            ),
            PendingEqualizerOpKind::RuleUpdate { rule_id, .. } => has_rule(
                st.device_rules@,
                rule_id@,
            ) ==> b.expected_base() == Some(
                st.device_rules@[first_rule(st.device_rules@, rule_id@)].revision,
            ),
            PendingEqualizerOpKind::RuleDelete { rule_id, .. } => has_rule(
                st.device_rules@,
                rule_id@,
            ) ==> b.expected_base() == Some(
                st.device_rules@[first_rule(st.device_rules@, rule_id@)].revision,
            ),
            _ => b.expected_base() == a.expected_base(),
        },
{
}

/// The entity of a retargeted operation is the retargeted entity: a
/// profile's through the profile map, a rule's through the rule map.
pub proof fn law_remap_moves_entity<S>(
    a: PendingEqualizerOpKind<S>,
    b: PendingEqualizerOpKind<S>,
    profile_ids: Seq<(String, String)>,
    rule_ids: Seq<(String, String)>,
)
    requires
        PendingEqualizerOpKind::is_remapped(a, b, profile_ids, rule_ids),
    ensures
        b.entity() == match a {
            PendingEqualizerOpKind::ProfileCreate { profile } => Some(remapped(profile_ids, profile.id@)),
            PendingEqualizerOpKind::ProfileUpdate { profile_id, .. } => Some(
                remapped(profile_ids, profile_id@),
            ),
            PendingEqualizerOpKind::ProfileDelete { request } => Some(
                remapped(profile_ids, request.profile_id@),
            ),
            PendingEqualizerOpKind::RuleCreate { rule } => Some(remapped(rule_ids, rule.id@)),
            PendingEqualizerOpKind::RuleUpdate { rule_id, .. } => Some(remapped(rule_ids, rule_id@)),
            PendingEqualizerOpKind::RuleDelete { rule_id, .. } => Some(remapped(rule_ids, rule_id@)),
            _ => None::<Seq<char>>,
        },
        b.op_type_text() == a.op_type_text(),
        b.expected_base() == a.expected_base(),
{
}

/// Queued edits apply in order: a queued create of a new profile followed
/// by a queued update of it shows the updated profile, still at revision 0
/// (not yet on the server), created at the create's time and updated at
/// the update's, after the profiles the state had.
pub proof fn law_update_after_create<S: Clone>(
    created: EqualizerProfileInput<S>,
    profile_id: String,
    expected_revision: Revision,
    updated: EqualizerProfileInput<S>,
    st: EqualizerState<S>,
    mid: EqualizerState<S>,
    out: EqualizerState<S>,
    t1: Seq<char>,
    t2: Seq<char>,
    r1: Result<(), AppError>,
    r2: Result<(), AppError>,
)
    requires
        !has_profile(st.profiles@, created.id@),
        profile_id@ == created.id@,
        PendingEqualizerOpKind::materialized(
            (PendingEqualizerOpKind::ProfileCreate { profile: created }),
            st,
            mid,
            t1,
            r1,
        ),
        PendingEqualizerOpKind::materialized(
            (PendingEqualizerOpKind::ProfileUpdate { profile_id, expected_revision, profile: updated }),
            mid,
            out,
            t2,
            r2,
        ),
    ensures
        r1 is Ok,
        r2 is Ok,
        out.profiles@.len() == st.profiles@.len() + 1,
        out.profiles@.drop_last() == st.profiles@,
        profile_overlay(out.profiles@.last(), updated, Revision(0), t1, t2),
{
    let n = st.profiles@.len() as int;
    assert(mid.profiles@.drop_last() == st.profiles@);
    assert forall|j: int| 0 <= j < n implies (#[trigger] mid.profiles@[j]).id@ != created.id@ by {
        assert(mid.profiles@[j] == mid.profiles@.drop_last()[j]);
        assert(st.profiles@[j] == mid.profiles@[j]);
    }
    assert(mid.profiles@[n] == mid.profiles@.last());
    lemma_first_profile(mid.profiles@, created.id@, n);
    assert(out.profiles@.drop_last() =~= st.profiles@) by {
        assert forall|j: int| 0 <= j < n implies out.profiles@.drop_last()[j] == st.profiles@[j] by {
            assert(out.profiles@[j] == mid.profiles@[j]);
            assert(mid.profiles@[j] == mid.profiles@.drop_last()[j]);
        }
    }
}

} // verus!
