use octave_core::auth::manager::AuthSession;
use octave_core::auth::store::StoredCredentialKind;
use octave_core::equalizer::audio_output::{macos, windows};
use octave_core::equalizer::model::{
    normalize_hardware_id, normalize_matcher, now_string, AudioOutput, BindingStability, DeleteProfileDisposition,
    DeleteProfileRequest, EntityRevision, EqualizerDeviceRule, EqualizerDeviceRuleInput,
    EqualizerProfile, EqualizerProfileInput, EqualizerSnapshot, EqualizerState, ExactBinding,
    LocalEqualizerState, LocalPreferences,
    PortableDeviceSelector, ProfileLayer, ProfileTarget, ResolveReason, Revision, RouteAccuracy,
    RouteKind, RuleAction, SupportState, TriggerKind, EQ_NORMALIZATION_VERSION,
    EQ_PROFILE_FORMAT_VERSION,
};
use octave_core::equalizer::naming::{claim_random_recovery_name, claim_recovery_name, unique_recovery_name};
use octave_core::equalizer::ops::{
    remap_action, remap_id, rule_to_overlay, PendingEqualizerOpKind,
};
use octave_core::equalizer::parser::import_profile_name;
use octave_core::equalizer::recovery::{plan_preservation, plan_preservation_with};
use octave_core::equalizer::repo::{
    sync_state_from_row, SyncStateRow, action_columns, action_from_columns, layer_string, parse_revision, parse_support,
    plan_enqueue, recovery_profile_id, support_string, QueuedDeps,
};
use octave_core::equalizer::resolver::{
    best_rule, resolve, ResolveInput, ResolvedEqualizer, ResolverLayer,
};
use octave_core::equalizer::service::{
    check_nothing_pending, check_probed_support, check_unreferenced, local_profile_capacity,
    local_rule_capacity, parse_resolution, priority_for_local_write, priority_for_update,
    promotion_name, promotion_needs_probe, rebind_after_delete, selected_endpoint_key,
    after_outputs_report, scrub_outputs, synthetic_mutation, OutputsStep, ConflictResolution, canonicalize_rule, endpoint_hmac, endpoint_unimplemented, hex_hash, promotion_profile_id,
    scope_changed, scope_for_auth, state_is_supported_v1, support_requires_probe,
    unique_promotion_name,
};
use octave_core::equalizer::sync::{
    after_edit_probe, after_fetch, after_push, after_sync_probe, after_synced_push,
    bearer_for_scope, device_secret_text, edit_gate, probed_support, push_now, refresh_allowed,
    refresh_basis,
    uses_local_layer, DrainStep, FetchVerdict, ProbeStep, SyncedEditStep, UNCONFIGURED_SCOPE,
};
use octave_core::error::AppError;

#[test]
fn classifies_common_endpoint_labels() {
    assert_eq!(windows::classify_route("WH-1000XM5 Bluetooth"), RouteKind::Bluetooth);
    assert_eq!(windows::classify_route("USB DAC"), RouteKind::Usb);
    assert_eq!(windows::classify_route("NVIDIA HDMI Output"), RouteKind::Hdmi);
    assert_eq!(windows::classify_route("Headphones"), RouteKind::Wired);
    assert_eq!(windows::classify_route("Speakers (Realtek)"), RouteKind::Builtin);
}

#[test]
fn macos_routes_and_default_output() {
    assert_eq!(macos::classify_route("AirPlay TV"), RouteKind::Airplay);
    assert_eq!(macos::classify_route("AirPods Pro"), RouteKind::Bluetooth);
    assert_eq!(macos::classify_route("MacBook Pro Speakers"), RouteKind::Builtin);
    assert_eq!(macos::classify_route("Studio"), RouteKind::Unknown);
    assert!(macos::outputs_for_default(0, None, "u".into()).is_empty());
    let outs = macos::outputs_for_default(7, None, "uid-7".into());
    assert_eq!(outs.len(), 1);
    assert_eq!(outs[0].display_name, "System default output");
    assert_eq!(outs[0].runtime_id.as_deref(), Some("uid-7"));
    assert_eq!(outs[0].accuracy, RouteAccuracy::Default);
    let w = windows::endpoint_output("id-1".into(), Some("USB DAC".into()), Some("id-2"));
    assert!(!w.selected);
    assert_eq!(w.accuracy, RouteAccuracy::ConnectedOnly);
    assert_eq!(w.route_kind, RouteKind::Usb);
    let w = windows::endpoint_output("id-2".into(), None, Some("id-2"));
    assert!(w.selected);
    assert_eq!(w.display_name, "Windows audio output");
}

#[test]
fn normalization_handles_casefold_and_compatibility_characters() {
    assert_eq!(normalize_matcher("  STRA\u{00df}E\t\u{ff21}  "), "strasse a");
}

fn output(key: Option<&str>) -> AudioOutput {
    AudioOutput {
        runtime_id: None,
        local_endpoint_key: key.map(str::to_string),
        display_name: "Sony XM5".into(),
        route_kind: RouteKind::Bluetooth,
        vendor_id: None,
        product_id: None,
        connected: true,
        selected: true,
        accuracy: RouteAccuracy::Predicted,
        binding_stability: BindingStability::PersistentExact,
    }
}

fn selector(trigger: TriggerKind, name: &str) -> PortableDeviceSelector {
    PortableDeviceSelector {
        normalization_version: EQ_NORMALIZATION_VERSION,
        route_kind: RouteKind::Bluetooth,
        normalized_name: normalize_matcher(name),
        vendor_id: None,
        product_id: None,
        platform_scope: None,
        trigger,
    }
}

fn rule(id: &str, priority: i32, selectors: Vec<PortableDeviceSelector>) -> EqualizerDeviceRule {
    EqualizerDeviceRule {
        id: id.into(),
        label: id.into(),
        action: RuleAction::Bypass,
        selectors,
        priority,
        enabled: true,
        revision: Revision(1),
    }
}

fn empty_layer() -> ResolverLayer {
    ResolverLayer { default_profile_id: None, profile_ids: vec![], device_rules: vec![] }
}

#[test]
fn automatic_toggle_gates_exact_bindings() {
    let synced = ResolverLayer {
        default_profile_id: Some("p-default".into()),
        profile_ids: vec!["p-default".into()],
        device_rules: vec![],
    };
    let bindings = vec![ExactBinding {
        endpoint_key: "key".into(),
        display_label: None,
        target: ProfileTarget { layer: ProfileLayer::Synced, action: RuleAction::Bypass },
        orphaned: false,
    }];
    let outputs = vec![output(Some("key"))];
    let local = empty_layer();
    let resolved = resolve(ResolveInput {
        preferences: &LocalPreferences { master_enabled: true, automatic_switching_enabled: false },
        support_state: SupportState::Supported,
        synced: &synced,
        synced_state_revision: Revision(0),
        local: &local,
        manual_override: None,
        exact_bindings: &bindings,
        outputs: &outputs,
        scope_epoch: Revision(1),
        resolution_generation: Revision(1),
        platform: None,
    });
    assert_eq!(resolved.reason, ResolveReason::Default);
    assert_eq!(synced.profile_ids[resolved.profile.unwrap()], "p-default");
}

#[test]
fn exact_binding_precedes_portable_and_default() {
    let synced = ResolverLayer {
        default_profile_id: Some("p-default".into()),
        profile_ids: vec!["p-default".into()],
        device_rules: vec![],
    };
    let bindings = vec![ExactBinding {
        endpoint_key: "key".into(),
        display_label: None,
        target: ProfileTarget { layer: ProfileLayer::Synced, action: RuleAction::Bypass },
        orphaned: false,
    }];
    let outputs = vec![output(Some("key"))];
    let local = empty_layer();
    let resolved = resolve(ResolveInput {
        preferences: &LocalPreferences { master_enabled: true, automatic_switching_enabled: true },
        support_state: SupportState::Supported,
        synced: &synced,
        synced_state_revision: Revision(0),
        local: &local,
        manual_override: None,
        exact_bindings: &bindings,
        outputs: &outputs,
        scope_epoch: Revision(1),
        resolution_generation: Revision(1),
        platform: None,
    });
    assert_eq!(resolved.reason, ResolveReason::LocalExact);
    assert!(resolved.profile.is_none());
}

#[test]
fn unreliable_selected_output_does_not_run_active_output_rules() {
    let mut selected = output(None);
    selected.accuracy = RouteAccuracy::ConnectedOnly;
    let mut synced = empty_layer();
    synced.device_rules.push(rule(
        "active",
        100,
        vec![selector(TriggerKind::ActiveOutput, "Sony XM5")],
    ));
    let outputs = vec![selected];
    let local = empty_layer();
    let resolved = resolve(ResolveInput {
        preferences: &LocalPreferences { master_enabled: true, automatic_switching_enabled: true },
        support_state: SupportState::Supported,
        synced: &synced,
        synced_state_revision: Revision(0),
        local: &local,
        manual_override: None,
        exact_bindings: &[],
        outputs: &outputs,
        scope_epoch: Revision(1),
        resolution_generation: Revision(1),
        platform: None,
    });
    assert_eq!(resolved.reason, ResolveReason::Flat);
}

#[test]
fn specificity_uses_best_matching_selector_not_an_unrelated_alias() {
    let generic = rule(
        "generic",
        5,
        vec![
            PortableDeviceSelector {
                vendor_id: Some("1111".into()),
                product_id: Some("2222".into()),
                normalized_name: normalize_matcher("Different Device"),
                ..selector(TriggerKind::ActiveOutput, "Different Device")
            },
            selector(TriggerKind::ActiveOutput, "Sony XM5"),
        ],
    );
    let specific = rule(
        "specific",
        5,
        vec![PortableDeviceSelector {
            vendor_id: Some("abcd".into()),
            product_id: Some("1234".into()),
            ..selector(TriggerKind::ActiveOutput, "Sony XM5")
        }],
    );
    let mut current = output(None);
    current.vendor_id = Some("ABCD".into());
    current.product_id = Some("0x1234".into());
    let rules = [generic, specific];
    let matched = best_rule(&rules, &current, TriggerKind::ActiveOutput, None).unwrap();
    assert_eq!(rules[matched.index].id, "specific");
}

#[test]
fn connected_fallback_reports_the_candidate_that_matched() {
    let mut unavailable = output(None);
    unavailable.selected = false;
    unavailable.accuracy = RouteAccuracy::Unavailable;
    let mut candidate = output(None);
    candidate.selected = false;
    candidate.display_name = "Kitchen Speaker".into();
    candidate.accuracy = RouteAccuracy::ConnectedOnly;
    let mut synced = empty_layer();
    synced.device_rules.push(rule(
        "speaker",
        1,
        vec![selector(TriggerKind::Connected, "Kitchen Speaker")],
    ));
    let outputs = vec![unavailable, candidate];
    let local = empty_layer();
    let resolved = resolve(ResolveInput {
        preferences: &LocalPreferences { master_enabled: true, automatic_switching_enabled: true },
        support_state: SupportState::Supported,
        synced: &synced,
        synced_state_revision: Revision(0),
        local: &local,
        manual_override: None,
        exact_bindings: &[],
        outputs: &outputs,
        scope_epoch: Revision(1),
        resolution_generation: Revision(1),
        platform: None,
    });
    assert_eq!(resolved.reason, ResolveReason::ConnectedFallback);
    assert_eq!(resolved.output_summary.unwrap().display_name, "Kitchen Speaker");
}

#[test]
fn future_format_quarantine_is_reprobed() {
    assert!(!support_requires_probe(SupportState::Supported));
    assert!(support_requires_probe(SupportState::Unknown));
    assert!(support_requires_probe(SupportState::Unsupported));
    assert!(support_requires_probe(SupportState::FutureFormat));
}

#[test]
fn endpoint_hmac_is_stable_keyed_and_not_the_raw_id() {
    let first = endpoint_hmac(b"device secret", "raw-platform-id");
    assert_eq!(first, endpoint_hmac(b"device secret", "raw-platform-id"));
    assert_ne!(first, endpoint_hmac(b"other secret", "raw-platform-id"));
    assert!(!first.contains("raw-platform-id"));
    assert_eq!(first.len(), 64);
}

#[test]
fn hmac_matches_the_rfc_4231_vector() {
    let key = [0x0bu8; 20];
    assert_eq!(
        endpoint_hmac(&key, "Hi There"),
        "b0344c61d8db38535ca8afceaf0bf12b881dc200c9833da726e9376c2e32cff7"
    );
}

#[test]
fn promotion_ids_are_deterministic_and_scope_partitioned() {
    let first = promotion_profile_id("server:a:user:1", "local-profile");
    assert_eq!(first, promotion_profile_id("server:a:user:1", "local-profile"));
    assert_ne!(first, promotion_profile_id("server:b:user:1", "local-profile"));
    assert!(uuid::Uuid::parse_str(&first).is_ok());
}

#[test]
fn recovery_ids_are_version_five_shaped() {
    let id = recovery_profile_id("scope", "server-profile", 0);
    assert_eq!(id, recovery_profile_id("scope", "server-profile", 0));
    assert_ne!(id, recovery_profile_id("scope", "server-profile", 1));
    let parsed = uuid::Uuid::parse_str(&id).unwrap();
    assert_eq!(parsed.get_version_num(), 5);
    assert_eq!(id.len(), 36);
    assert_eq!(&id[14..15], "5");
}

#[test]
fn scope_keys_name_server_and_user() {
    let h = hex_hash("https://music.example");
    assert_eq!(h.len(), 24);
    let bearer = AuthSession {
        kind: StoredCredentialKind::Bearer,
        user_id: Some("u1".to_string()),
        username: None,
        tier: (),
        expires_at: None,
    };
    assert_eq!(
        scope_for_auth("https://music.example", Some(&bearer)),
        format!("server:{h}:user:u1")
    );
    let secret = AuthSession { kind: StoredCredentialKind::SecretKey, ..bearer.clone() };
    assert_eq!(
        scope_for_auth("https://music.example", Some(&secret)),
        format!("server:{h}:secret-device")
    );
    assert_eq!(
        scope_for_auth::<()>("https://music.example", None),
        format!("server:{h}:signed-out-device")
    );
    assert_eq!(hex_hash("abc"), "ba7816bf8f01cfea414140de");
}

#[test]
fn service_errors_and_versions() {
    assert!(endpoint_unimplemented(&AppError::Unsupported(
        "endpoint_unimplemented: eq".into()
    )));
    assert!(!endpoint_unimplemented(&AppError::Unsupported("other".into())));
    assert!(!endpoint_unimplemented(&AppError::Internal("endpoint_unimplemented:".into())));
    match scope_changed() {
        AppError::Conflict { code, .. } => assert_eq!(code, "scope_changed"),
        other => panic!("unexpected {other:?}"),
    }
    let mut st = state_with(&[("a", 1), ("b", 2)], vec![]);
    assert!(state_is_supported_v1(&st));
    st.profiles[1].format_version = 2;
    assert!(!state_is_supported_v1(&st));
    let mut newer: EqualizerState<Sound> = EqualizerState::default();
    newer.state_format_version = 2;
    assert!(!state_is_supported_v1(&newer));
}

#[test]
fn promotion_names_avoid_existing_ones() {
    let mut existing = vec![five_band_starter("Rock"), five_band_starter("rock (2)")];
    assert_eq!(unique_promotion_name("Jazz", &existing), "Jazz");
    assert_eq!(unique_promotion_name("ROCK", &existing), "ROCK (3)");
    existing.truncate(1);
    assert_eq!(unique_promotion_name("rock", &existing), "rock (2)");
    let long = "x".repeat(100);
    let named = unique_promotion_name(&long, &[five_band_starter(&long)]);
    assert_eq!(named.chars().count(), 100);
    assert!(named.ends_with(" (2)"));
}

#[test]
fn recovery_names_are_claimed_once() {
    let mut used = Vec::new();
    assert_eq!(claim_recovery_name("  Bass ", &mut used).as_deref(), Some("Bass"));
    assert_eq!(claim_recovery_name("bass", &mut used).as_deref(), Some("bass (server recovery)"));
    assert_eq!(
        claim_recovery_name("BASS", &mut used).as_deref(),
        Some("BASS (server recovery 2)")
    );
    assert_eq!(used.len(), 3);
    let r = claim_random_recovery_name("0123456789abcdef0123456789abcdef", &mut used);
    assert_eq!(r.as_deref(), Some("Recovered 0123456789abcdef0123456789abcdef"));
    assert!(claim_random_recovery_name("0123456789abcdef0123456789abcdef", &mut used).is_none());
}

#[test]
fn canonical_rules_trim_and_normalize() {
    let mut input = EqualizerDeviceRuleInput {
        id: "r".into(),
        label: "  Desk  ".into(),
        action: RuleAction::Bypass,
        selectors: vec![PortableDeviceSelector {
            normalization_version: 0,
            route_kind: RouteKind::Usb,
            normalized_name: "  USB   DAC ".into(),
            vendor_id: Some("0xABCD".into()),
            product_id: None,
            platform_scope: None,
            trigger: TriggerKind::Connected,
        }],
        enabled: true,
    };
    canonicalize_rule(&mut input);
    assert_eq!(input.label, "Desk");
    assert_eq!(input.selectors[0].normalization_version, EQ_NORMALIZATION_VERSION);
    assert_eq!(input.selectors[0].normalized_name, "usb dac");
    assert_eq!(input.selectors[0].vendor_id.as_deref(), Some("abcd"));
    let rule = rule_to_overlay(&input, Revision(4), -2);
    assert_eq!(rule.priority, -2);
    assert_eq!(rule.revision, Revision(4));
    assert_eq!(rule.selectors, input.selectors);
}

#[derive(Debug, Clone, PartialEq)]
struct Sound {
    preamp_db: f64,
    bands: Vec<(f64, f64, f64)>,
}

fn five_band_starter(name: &str) -> EqualizerProfile<Sound> {
    EqualizerProfile {
        id: uuid::Uuid::new_v4().to_string(),
        name: name.to_string(),
        format_version: EQ_PROFILE_FORMAT_VERSION,
        sound: Sound {
            preamp_db: 0.0,
            bands: vec![
                (60.0, 0.0, 0.9),
                (230.0, 0.0, 0.9),
                (910.0, 0.0, 0.9),
                (3600.0, 0.0, 0.9),
                (14000.0, 0.0, 0.9),
            ],
        },
        auto_headroom_enabled: true,
        revision: Revision(0),
        created_at: "2024-01-01T00:00:00Z".into(),
        updated_at: "2024-01-01T00:00:00Z".into(),
    }
}

fn input_of(p: &EqualizerProfile<Sound>) -> EqualizerProfileInput<Sound> {
    EqualizerProfileInput {
        id: p.id.clone(),
        name: p.name.clone(),
        format_version: p.format_version,
        sound: p.sound.clone(),
        auto_headroom_enabled: p.auto_headroom_enabled,
    }
}

#[test]
fn queued_edits_materialize_in_order() {
    let profile = five_band_starter("First");
    let mut state: EqualizerState<Sound> = EqualizerState::default();
    PendingEqualizerOpKind::ProfileCreate { profile: input_of(&profile) }
        .materialize(&mut state)
        .unwrap();
    let mut changed = input_of(&profile);
    changed.name = "Changed".to_string();
    PendingEqualizerOpKind::ProfileUpdate {
        profile_id: profile.id,
        expected_revision: Revision(0),
        profile: changed,
    }
    .materialize(&mut state)
    .unwrap();
    assert_eq!(state.profiles[0].name, "Changed");
}

#[test]
fn local_recovery_remaps_entity_and_reference_edges() {
    let profile = five_band_starter("Remote");
    let mut op: PendingEqualizerOpKind<Sound> = PendingEqualizerOpKind::RuleUpdate {
        rule_id: "server-rule".into(),
        expected_revision: Revision(7),
        rule: EqualizerDeviceRuleInput {
            id: "server-rule".into(),
            label: "Output".into(),
            action: RuleAction::Profile { profile_id: profile.id.clone() },
            selectors: vec![],
            enabled: true,
        },
    };
    op.remap_for_local_recovery(
        &vec![(profile.id, "local-profile".into())],
        &vec![("server-rule".into(), "local-rule".into())],
    );
    let PendingEqualizerOpKind::RuleUpdate { rule_id, rule, .. } = op else {
        panic!("expected rule update");
    };
    assert_eq!(rule_id, "local-rule");
    assert_eq!(rule.id, "local-rule");
    assert_eq!(rule.action.profile_id(), Some("local-profile"));
}

#[test]
fn remapping_leaves_unmapped_ids_and_bypass_alone() {
    let profiles = vec![("server-profile".to_string(), "local-profile".to_string())];
    let rules = vec![("server-rule".to_string(), "local-rule".to_string())];
    let mut untouched = "other".to_string();
    remap_id(&mut untouched, &rules);
    assert_eq!(untouched, "other");
    let mut bypass = RuleAction::Bypass;
    remap_action(&mut bypass, &profiles);
    assert_eq!(bypass, RuleAction::Bypass);
}

fn op_rule(id: &str, action: RuleAction, priority: i32, revision: i64) -> EqualizerDeviceRule {
    EqualizerDeviceRule {
        id: id.into(),
        label: format!("{id} label"),
        action,
        selectors: vec![],
        priority,
        enabled: true,
        revision: Revision(revision),
    }
}

fn rule_input(id: &str, action: RuleAction) -> EqualizerDeviceRuleInput {
    EqualizerDeviceRuleInput {
        id: id.into(),
        label: format!("{id} label"),
        action,
        selectors: vec![],
        enabled: true,
    }
}

fn uses(p: &str) -> RuleAction {
    RuleAction::Profile { profile_id: p.into() }
}

fn state_with(profiles: &[(&str, i64)], rules: Vec<EqualizerDeviceRule>) -> EqualizerState<Sound> {
    let mut st: EqualizerState<Sound> = EqualizerState::default();
    for (id, rev) in profiles {
        let mut p = five_band_starter(id);
        p.id = id.to_string();
        p.revision = Revision(*rev);
        st.profiles.push(p);
    }
    st.device_rules = rules;
    st.settings_revision = Revision(11);
    st
}

#[test]
fn queued_operations_describe_themselves() {
    let create: PendingEqualizerOpKind<Sound> =
        PendingEqualizerOpKind::RuleCreate { rule: rule_input("r1", uses("p1")) };
    assert_eq!(create.op_type(), "equalizer.rule.create");
    assert_eq!(create.entity_id(), Some("r1"));
    assert_eq!(create.base_revision(), None);
    assert_eq!(create.dependency_group(), "profile:p1");
    assert_eq!(create.dependency_entity_ids(), vec!["r1", "p1"]);
    let bypass: PendingEqualizerOpKind<Sound> = PendingEqualizerOpKind::RuleUpdate {
        rule_id: "r2".into(),
        expected_revision: Revision(4),
        rule: rule_input("r2", RuleAction::Bypass),
    };
    assert_eq!(bypass.dependency_group(), "rule:r2");
    assert_eq!(bypass.base_revision(), Some(Revision(4)));
    assert_eq!(bypass.dependency_entity_ids(), vec!["r2"]);
    let settings: PendingEqualizerOpKind<Sound> = PendingEqualizerOpKind::SettingsUpdate {
        expected_settings_revision: Revision(3),
        default_profile_id: None,
    };
    assert_eq!(settings.dependency_group(), "settings");
    assert_eq!(settings.entity_id(), None);
    assert!(settings.dependency_entity_ids().is_empty());
    let reorder: PendingEqualizerOpKind<Sound> = PendingEqualizerOpKind::RuleReorder {
        rules: vec![
            EntityRevision { id: "a".into(), expected_revision: Revision(1) },
            EntityRevision { id: "b".into(), expected_revision: Revision(2) },
        ],
    };
    assert_eq!(reorder.dependency_group(), "rule-order");
    assert_eq!(reorder.op_type(), "equalizer.rule.reorder");
    assert_eq!(reorder.dependency_entity_ids(), vec!["a", "b"]);
    let delete: PendingEqualizerOpKind<Sound> = PendingEqualizerOpKind::ProfileDelete {
        request: DeleteProfileRequest {
            profile_id: "p1".into(),
            expected_revision: Revision(5),
            expected_settings_revision: Revision(6),
            referencing_rules: vec![EntityRevision { id: "r1".into(), expected_revision: Revision(2) }],
            disposition: DeleteProfileDisposition::ReplaceWithProfile { profile_id: "p2".into() },
            local_binding_disposition: None,
        },
    };
    assert_eq!(delete.dependency_group(), "profile:p1");
    assert_eq!(delete.base_revision(), Some(Revision(5)));
    assert_eq!(delete.dependency_entity_ids(), vec!["p1", "r1", "p2"]);
}

#[test]
fn profile_delete_moves_default_and_rules_to_replacement() {
    let mut st = state_with(
        &[("p1", 3), ("p2", 4)],
        vec![op_rule("r1", uses("p1"), 5, 1), op_rule("r2", uses("p2"), 4, 1), op_rule("r3", uses("p1"), 3, 2)],
    );
    st.default_profile_id = Some("p1".into());
    let op: PendingEqualizerOpKind<Sound> = PendingEqualizerOpKind::ProfileDelete {
        request: DeleteProfileRequest {
            profile_id: "p1".into(),
            expected_revision: Revision(3),
            expected_settings_revision: Revision(11),
            referencing_rules: vec![],
            disposition: DeleteProfileDisposition::ReplaceWithProfile { profile_id: "p2".into() },
            local_binding_disposition: None,
        },
    };
    op.materialize(&mut st).unwrap();
    assert_eq!(st.profiles.len(), 1);
    assert_eq!(st.profiles[0].id, "p2");
    assert_eq!(st.default_profile_id.as_deref(), Some("p2"));
    assert_eq!(st.device_rules[0].action, uses("p2"));
    assert_eq!(st.device_rules[2].action, uses("p2"));
    let flat: PendingEqualizerOpKind<Sound> = PendingEqualizerOpKind::ProfileDelete {
        request: DeleteProfileRequest {
            profile_id: "p2".into(),
            expected_revision: Revision(4),
            expected_settings_revision: Revision(11),
            referencing_rules: vec![],
            disposition: DeleteProfileDisposition::ReplaceWithFlat,
            local_binding_disposition: None,
        },
    };
    flat.materialize(&mut st).unwrap();
    assert!(st.profiles.is_empty());
    assert_eq!(st.default_profile_id, None);
    assert!(st.device_rules.iter().all(|r| r.action == RuleAction::Bypass));
}

#[test]
fn rule_ops_materialize_with_priorities() {
    let mut st = state_with(&[("p1", 3)], vec![op_rule("r1", uses("p1"), 5, 1), op_rule("r2", RuleAction::Bypass, 2, 9)]);
    let create: PendingEqualizerOpKind<Sound> =
        PendingEqualizerOpKind::RuleCreate { rule: rule_input("r3", RuleAction::Bypass) };
    create.materialize_at(&mut st, "t").unwrap();
    assert_eq!(st.device_rules.len(), 3);
    assert_eq!(st.device_rules[2].priority, 1);
    assert_eq!(st.device_rules[2].revision, Revision(0));
    // Creating an id that is already there changes nothing.
    create.materialize_at(&mut st, "t").unwrap();
    assert_eq!(st.device_rules.len(), 3);
    let reorder: PendingEqualizerOpKind<Sound> = PendingEqualizerOpKind::RuleReorder {
        rules: vec![
            EntityRevision { id: "r3".into(), expected_revision: Revision(0) },
            EntityRevision { id: "gone".into(), expected_revision: Revision(0) },
            EntityRevision { id: "r1".into(), expected_revision: Revision(1) },
        ],
    };
    reorder.materialize_at(&mut st, "t").unwrap();
    assert_eq!(st.device_rules[2].priority, 3);
    assert_eq!(st.device_rules[0].priority, 1);
    assert_eq!(st.device_rules[1].priority, 2);
    let update: PendingEqualizerOpKind<Sound> = PendingEqualizerOpKind::RuleUpdate {
        rule_id: "r2".into(),
        expected_revision: Revision(9),
        rule: rule_input("r2", uses("p1")),
    };
    update.materialize_at(&mut st, "t").unwrap();
    assert_eq!(st.device_rules[1].action, uses("p1"));
    assert_eq!(st.device_rules[1].revision, Revision(9));
    assert_eq!(st.device_rules[1].priority, 2);
    let missing: PendingEqualizerOpKind<Sound> = PendingEqualizerOpKind::RuleUpdate {
        rule_id: "nope".into(),
        expected_revision: Revision(1),
        rule: rule_input("nope", RuleAction::Bypass),
    };
    assert_eq!(
        missing.materialize_at(&mut st, "t"),
        Err(AppError::Internal("pending rule nope missing".into()))
    );
    let delete: PendingEqualizerOpKind<Sound> =
        PendingEqualizerOpKind::RuleDelete { rule_id: "r1".into(), expected_revision: Revision(1) };
    delete.materialize_at(&mut st, "t").unwrap();
    assert_eq!(st.device_rules.iter().map(|r| r.id.as_str()).collect::<Vec<_>>(), vec!["r2", "r3"]);
}

#[test]
fn profile_update_keeps_revision_and_creation_time() {
    let mut st = state_with(&[("p1", 3)], vec![]);
    let mut input = input_of(&st.profiles[0]);
    input.name = "Renamed".into();
    input.sound.preamp_db = -2.5;
    let op = PendingEqualizerOpKind::ProfileUpdate {
        profile_id: "p1".into(),
        expected_revision: Revision(3),
        profile: input,
    };
    op.materialize_at(&mut st, "2025-05-05T05:05:05Z").unwrap();
    assert_eq!(st.profiles[0].name, "Renamed");
    assert_eq!(st.profiles[0].revision, Revision(3));
    assert_eq!(st.profiles[0].created_at, "2024-01-01T00:00:00Z");
    assert_eq!(st.profiles[0].updated_at, "2025-05-05T05:05:05Z");
    assert_eq!(st.profiles[0].sound.preamp_db, -2.5);
    let missing: PendingEqualizerOpKind<Sound> = PendingEqualizerOpKind::ProfileUpdate {
        profile_id: "p9".into(),
        expected_revision: Revision(3),
        profile: input_of(&st.profiles[0]),
    };
    assert_eq!(
        missing.materialize_at(&mut st, "t"),
        Err(AppError::Internal("pending profile p9 missing".into()))
    );
}

#[test]
fn rebase_takes_current_revisions() {
    let st = state_with(
        &[("p1", 8)],
        vec![op_rule("r1", uses("p1"), 5, 21), op_rule("r2", RuleAction::Bypass, 4, 22)],
    );
    let mut upd: PendingEqualizerOpKind<Sound> = PendingEqualizerOpKind::RuleDelete {
        rule_id: "r2".into(),
        expected_revision: Revision(1),
    };
    upd.rebase(&st);
    assert_eq!(upd.base_revision(), Some(Revision(22)));
    let mut settings: PendingEqualizerOpKind<Sound> = PendingEqualizerOpKind::SettingsUpdate {
        expected_settings_revision: Revision(1),
        default_profile_id: Some("p1".into()),
    };
    settings.rebase(&st);
    assert_eq!(settings.base_revision(), Some(Revision(11)));
    let mut del: PendingEqualizerOpKind<Sound> = PendingEqualizerOpKind::ProfileDelete {
        request: DeleteProfileRequest {
            profile_id: "p1".into(),
            expected_revision: Revision(1),
            expected_settings_revision: Revision(1),
            referencing_rules: vec![],
            disposition: DeleteProfileDisposition::ReplaceWithFlat,
            local_binding_disposition: None,
        },
    };
    del.rebase(&st);
    let PendingEqualizerOpKind::ProfileDelete { request } = &del else {
        panic!("expected profile delete");
    };
    assert_eq!(request.expected_revision, Revision(8));
    assert_eq!(request.expected_settings_revision, Revision(11));
    assert_eq!(
        request.referencing_rules,
        vec![EntityRevision { id: "r1".into(), expected_revision: Revision(21) }]
    );
    let mut reorder: PendingEqualizerOpKind<Sound> = PendingEqualizerOpKind::RuleReorder {
        rules: vec![
            EntityRevision { id: "r2".into(), expected_revision: Revision(0) },
            EntityRevision { id: "zz".into(), expected_revision: Revision(5) },
        ],
    };
    reorder.rebase(&st);
    let PendingEqualizerOpKind::RuleReorder { rules } = &reorder else {
        panic!("expected reorder");
    };
    assert_eq!(rules[0].expected_revision, Revision(22));
    assert_eq!(rules[1].expected_revision, Revision(5));
}

#[test]
fn columns_round_trip() {
    for s in [
        SupportState::Unknown,
        SupportState::Supported,
        SupportState::Unsupported,
        SupportState::FutureFormat,
    ] {
        assert_eq!(parse_support(support_string(s)).unwrap(), s);
    }
    match parse_support("nope") {
        Err(AppError::Database(m)) => assert_eq!(m, "invalid EQ support state nope"),
        other => panic!("unexpected {other:?}"),
    }
    let a = RuleAction::Profile { profile_id: "p".into() };
    let (tag, pid) = action_columns(&a);
    assert_eq!((tag, pid), ("profile", Some("p")));
    assert_eq!(action_from_columns(tag, pid.map(str::to_string)).unwrap(), a);
    assert_eq!(action_from_columns("bypass", None).unwrap(), RuleAction::Bypass);
    assert!(action_from_columns("bypass", Some("p".into())).is_err());
    assert_eq!(layer_string(ProfileLayer::LocalOnly), "local_only");
}

#[test]
fn revisions_parse_like_i64() {
    assert_eq!(parse_revision("42").unwrap(), Revision(42));
    assert_eq!(parse_revision("-9223372036854775808").unwrap(), Revision(i64::MIN));
    assert_eq!(parse_revision("+7").unwrap(), Revision(7));
    match parse_revision("9223372036854775808") {
        Err(AppError::Database(m)) => assert_eq!(
            m,
            "invalid EQ revision '9223372036854775808': number too large to fit in target type"
        ),
        other => panic!("unexpected {other:?}"),
    }
    match parse_revision("") {
        Err(AppError::Database(m)) => {
            assert_eq!(m, "invalid EQ revision '': cannot parse integer from empty string")
        }
        other => panic!("unexpected {other:?}"),
    }
    match parse_revision("1x") {
        Err(AppError::Database(m)) => {
            assert_eq!(m, "invalid EQ revision '1x': invalid digit found in string")
        }
        other => panic!("unexpected {other:?}"),
    }
    assert_eq!(Revision(i64::MAX).to_string(), i64::MAX.to_string());
    assert_eq!(Revision::from_str(&Revision(-5).to_string()), Ok(Revision(-5)));
}

#[test]
fn enqueue_joins_the_oldest_dependent_group() {
    let rows = vec![
        QueuedDeps { id: 5, group: "rule:r1".into(), entities: vec!["r1".into(), "p1".into()] },
        QueuedDeps { id: 2, group: "profile:p2".into(), entities: vec!["p2".into()] },
        QueuedDeps { id: 9, group: "profile:p1".into(), entities: vec!["p1".into()] },
        QueuedDeps { id: 3, group: "settings".into(), entities: vec![] },
    ];
    let deps = vec!["p1".to_string()];
    let (group, merged) = plan_enqueue("profile:p1", &deps, &rows);
    assert_eq!(group, "rule:r1");
    assert_eq!(merged, vec!["profile:p1".to_string()]);
    let (group, merged) = plan_enqueue("rule-order", &vec![], &rows);
    assert_eq!(group, "rule-order");
    assert!(merged.is_empty());
}

#[test]
fn imported_profiles_are_named() {
    assert_eq!(import_profile_name(Some("  Bass boost \n")), "Bass boost");
    assert_eq!(import_profile_name(Some("   ")), "Imported equalizer");
    assert_eq!(import_profile_name(None), "Imported equalizer");
}

#[test]
fn sync_state_rows_decode() {
    let fresh = sync_state_from_row(None).unwrap();
    assert_eq!(fresh.state_revision, Revision(0));
    assert_eq!(fresh.support_state, SupportState::Unknown);
    assert!(!fresh.has_complete_snapshot);
    let row = SyncStateRow {
        state_revision: "42".into(),
        etag: Some("\"e1\"".into()),
        has_complete_snapshot: 2,
        support_state: "supported".into(),
        last_probe_at: None,
        last_probe_app_version: Some("1.0.0".into()),
        synced_at: Some("2024-01-01T00:00:00Z".into()),
    };
    let st = sync_state_from_row(Some(row.clone())).unwrap();
    assert_eq!(st.state_revision, Revision(42));
    assert_eq!(st.etag.as_deref(), Some("\"e1\""));
    assert!(st.has_complete_snapshot);
    assert_eq!(st.support_state, SupportState::Supported);
    assert_eq!(st.last_probe_app_version.as_deref(), Some("1.0.0"));
    let mut bad = row.clone();
    bad.support_state = "maybe".into();
    assert_eq!(
        sync_state_from_row(Some(bad)).unwrap_err(),
        AppError::Database("invalid EQ support state maybe".into())
    );
    let mut bad = row;
    bad.state_revision = "x".into();
    bad.support_state = "maybe".into();
    assert!(matches!(
        sync_state_from_row(Some(bad)),
        Err(AppError::Database(m)) if m.starts_with("invalid EQ revision 'x'")
    ));
}

#[test]
fn local_layers_are_capped_per_device() {
    let full: Vec<EqualizerProfile<Sound>> =
        (0..64).map(|i| five_band_starter(&format!("P{i}"))).collect();
    let known = full[3].id.clone();
    assert_eq!(local_profile_capacity(&full, &known), Ok(()));
    assert_eq!(
        local_profile_capacity(&full, "fresh"),
        Err(AppError::Internal("a device may contain at most 64 local equalizer profiles".into()))
    );
    assert_eq!(local_profile_capacity(&full[..63], "fresh"), Ok(()));
    let rules: Vec<EqualizerDeviceRule> =
        (0..64).map(|i| op_rule(&format!("r{i}"), RuleAction::Bypass, i, 1)).collect();
    assert_eq!(local_rule_capacity(&rules, "r5"), Ok(()));
    assert_eq!(
        local_rule_capacity(&rules, "new"),
        Err(AppError::Internal("a device may contain at most 64 local equalizer rules".into()))
    );
}

#[test]
fn local_rule_priorities() {
    let rules = vec![op_rule("a", RuleAction::Bypass, 7, 1), op_rule("b", RuleAction::Bypass, -3, 1)];
    assert_eq!(priority_for_update(&rules, "b"), -3);
    assert_eq!(priority_for_update(&rules, "zz"), 1);
    assert_eq!(priority_for_local_write(&rules, "a"), 7);
    assert_eq!(priority_for_local_write(&rules, "zz"), -4);
    assert_eq!(priority_for_local_write(&[], "zz"), 0);
}

#[test]
fn referenced_profiles_refuse_strict_delete() {
    let rules = vec![op_rule("r1", uses("p1"), 1, 1)];
    let binding = ExactBinding {
        endpoint_key: "k".into(),
        display_label: None,
        target: ProfileTarget { layer: ProfileLayer::Synced, action: uses("p2") },
        orphaned: false,
    };
    let referenced = Err(AppError::Conflict {
        code: "profile_referenced".into(),
        message: "profile is still referenced by a default, rule, or exact binding".into(),
    });
    assert_eq!(check_unreferenced(Some("p3"), &rules, &[binding.clone()], "p3"), referenced);
    assert_eq!(check_unreferenced(None, &rules, &[binding.clone()], "p1"), referenced);
    assert_eq!(check_unreferenced(None, &rules, &[binding.clone()], "p2"), referenced);
    assert_eq!(check_unreferenced(Some("p1"), &[], &[], "p4"), Ok(()));
}

#[test]
fn exact_bindings_follow_a_deleted_profile() {
    let mut binding = ExactBinding {
        endpoint_key: "k".into(),
        display_label: Some("DAC".into()),
        target: ProfileTarget { layer: ProfileLayer::Synced, action: uses("p1") },
        orphaned: false,
    };
    assert!(!rebind_after_delete(&mut binding, "p9", &None));
    assert!(!binding.orphaned);
    let replacement = ProfileTarget { layer: ProfileLayer::LocalOnly, action: uses("p2") };
    assert!(rebind_after_delete(&mut binding, "p1", &Some(replacement.clone())));
    assert_eq!(binding.target, replacement);
    assert!(!binding.orphaned);
    assert!(rebind_after_delete(&mut binding, "p2", &None));
    assert!(binding.orphaned);
    assert_eq!(binding.target, replacement);
}

#[test]
fn conflict_resolutions_and_promotion_gates() {
    assert_eq!(parse_resolution("keep_server"), Ok(ConflictResolution::KeepServer));
    assert_eq!(parse_resolution("keep_local_copy"), Ok(ConflictResolution::KeepLocalCopy));
    assert_eq!(parse_resolution("retry"), Ok(ConflictResolution::Retry));
    assert_eq!(
        parse_resolution("merge"),
        Err(AppError::Internal("unknown EQ conflict resolution 'merge'".into()))
    );
    assert!(matches!(promotion_needs_probe(SupportState::FutureFormat), Err(AppError::Unsupported(_))));
    assert_eq!(promotion_needs_probe(SupportState::Supported), Ok(false));
    assert_eq!(promotion_needs_probe(SupportState::Unknown), Ok(true));
    assert_eq!(promotion_needs_probe(SupportState::Unsupported), Ok(true));
    assert_eq!(check_probed_support(SupportState::Supported), Ok(()));
    assert!(check_probed_support(SupportState::Unknown).is_err());
    assert_eq!(check_nothing_pending(0), Ok(()));
    assert!(matches!(
        check_nothing_pending(2),
        Err(AppError::Conflict { code, .. }) if code == "sync_pending"
    ));
    let synced = vec![five_band_starter("Rock")];
    let existing_id = synced[0].id.clone();
    assert_eq!(promotion_name(&synced, &existing_id, "Whatever"), "Rock");
    assert_eq!(promotion_name(&synced, "new-id", "rock"), "rock (2)");
}

fn out(name: &str, selected: bool, stable: bool, key: Option<&str>) -> AudioOutput {
    AudioOutput {
        runtime_id: None,
        local_endpoint_key: key.map(|k| k.to_string()),
        display_name: name.into(),
        route_kind: RouteKind::Usb,
        vendor_id: None,
        product_id: None,
        connected: true,
        selected,
        accuracy: RouteAccuracy::Exact,
        binding_stability: if stable {
            BindingStability::PersistentExact
        } else {
            BindingStability::SessionOnly
        },
    }
}

#[test]
fn exact_binding_needs_a_selected_stable_output() {
    assert_eq!(
        selected_endpoint_key(&[out("A", false, true, Some("k"))]),
        Err(AppError::Internal("no selected audio output".into()))
    );
    assert_eq!(
        selected_endpoint_key(&[out("A", true, false, Some("k"))]),
        Err(AppError::Internal("the current output does not expose a stable exact binding".into()))
    );
    assert_eq!(
        selected_endpoint_key(&[out("A", true, true, None)]),
        Err(AppError::Internal("the current output has no private endpoint key".into()))
    );
    assert_eq!(
        selected_endpoint_key(&[out("A", false, true, Some("a")), out("B", true, true, Some("b"))]),
        Ok(("b".to_string(), "B".to_string()))
    );
}

#[test]
fn synthetic_mutations_report_the_active_layer() {
    let synced = state_with(&[("s1", 4)], vec![]);
    let local = LocalEqualizerState {
        default_profile_id: Some("l1".into()),
        profiles: vec![five_band_starter("Local")],
        device_rules: vec![op_rule("r", RuleAction::Bypass, 1, 0)],
    };
    let snapshot = EqualizerSnapshot {
        support_state: SupportState::Supported,
        synced: synced.clone(),
        local,
        active_layer: ProfileLayer::LocalOnly,
        preferences: LocalPreferences::default(),
        resolved: ResolvedEqualizer {
            profile: None,
            layer: None,
            reason: ResolveReason::Flat,
            output_summary: None,
            state_revision: Revision(0),
            scope_epoch: Revision(0),
            resolution_generation: Revision(0),
        },
        pending_count: 0,
        conflict_count: 0,
    };
    let local_view = synthetic_mutation(snapshot.clone());
    assert!(local_view.changed);
    assert_eq!(local_view.audit_id, None);
    assert_eq!(local_view.state.state_revision, Revision(0));
    assert_eq!(local_view.state.default_profile_id.as_deref(), Some("l1"));
    assert_eq!(local_view.state.profiles[0].name, "Local");
    assert_eq!(local_view.state.device_rules.len(), 1);
    let mut on_server = snapshot;
    on_server.active_layer = ProfileLayer::Synced;
    let synced_view = synthetic_mutation(on_server);
    assert_eq!(synced_view.state.settings_revision, Revision(11));
    assert_eq!(synced_view.state.profiles[0].id, "s1");
}

#[test]
fn sync_pass_steps() {
    assert_eq!(after_sync_probe(Ok(SupportState::Supported)), ProbeStep::Proceed);
    assert_eq!(after_sync_probe(Ok(SupportState::FutureFormat)), ProbeStep::ShowSnapshot);
    assert_eq!(after_sync_probe(Err(AppError::Transport("down".into()))), ProbeStep::ShowSnapshot);
    assert_eq!(
        after_sync_probe(Err(AppError::Forbidden("no".into()))),
        ProbeStep::Fail(AppError::Forbidden("no".into()))
    );
    assert_eq!(after_push(Ok(true)), DrainStep::Acknowledge);
    assert_eq!(
        after_push(Ok(false)),
        DrainStep::FutureFormat {
            message: "the server committed the change but returned a newer equalizer format".into()
        }
    );
    assert_eq!(
        after_push(Err(AppError::Conflict { code: "stale".into(), message: "m".into() })),
        DrainStep::Conflict { code: "stale".into(), message: "m".into() }
    );
    assert_eq!(
        after_push(Err(AppError::Transport("timeout".into()))),
        DrainStep::RetryLater { error: "transport error: timeout".into() }
    );
    assert_eq!(
        after_push(Err(AppError::Unsupported("endpoint_unimplemented: eq".into()))),
        DrainStep::FallBackToLocal
    );
    assert_eq!(
        after_push(Err(AppError::Unsupported("format 2".into()))),
        DrainStep::FutureFormat { message: "unsupported: format 2".into() }
    );
    assert_eq!(
        after_push(Err(AppError::Internal("x".into()))),
        DrainStep::Fail(AppError::Internal("x".into()))
    );
}

#[test]
fn fetch_and_edit_steps() {
    assert_eq!(after_fetch(Ok(Some(true))), FetchVerdict::Replace);
    assert_eq!(after_fetch(Ok(Some(false))), FetchVerdict::FutureFormat);
    assert_eq!(after_fetch(Ok(None)), FetchVerdict::Unchanged);
    assert_eq!(
        after_fetch(Err(AppError::Unsupported("endpoint_unimplemented:".into()))),
        FetchVerdict::FallBackToLocal
    );
    assert_eq!(after_fetch(Err(AppError::Unsupported("v2".into()))), FetchVerdict::FutureFormat);
    let down = after_fetch(Err(AppError::Transport("down".into())));
    assert_eq!(down, FetchVerdict::Fail(AppError::Transport("down".into())));
    assert_eq!(probed_support(&FetchVerdict::Unchanged), Some(SupportState::Supported));
    assert_eq!(probed_support(&FetchVerdict::FallBackToLocal), Some(SupportState::Unsupported));
    assert_eq!(probed_support(&down), None);
    assert!(refresh_allowed(0));
    assert!(!refresh_allowed(3));
    assert_eq!(refresh_basis(true, Revision(9)), Some(Revision(9)));
    assert_eq!(refresh_basis(false, Revision(9)), None);
    assert!(matches!(edit_gate(SupportState::FutureFormat), Err(AppError::Unsupported(_))));
    assert_eq!(edit_gate(SupportState::Unknown), Ok(true));
    assert_eq!(edit_gate(SupportState::Supported), Ok(false));
    assert_eq!(after_edit_probe(Err(AppError::Transport("t".into()))), Ok(()));
    assert_eq!(after_edit_probe(Ok(SupportState::Unsupported)), Ok(()));
    assert!(after_edit_probe(Err(AppError::Internal("i".into()))).is_err());
    assert!(uses_local_layer(SupportState::Supported, None));
    assert!(uses_local_layer(SupportState::Supported, Some(StoredCredentialKind::SecretKey)));
    assert!(!uses_local_layer(SupportState::Supported, Some(StoredCredentialKind::Bearer)));
    assert!(uses_local_layer(SupportState::Unsupported, Some(StoredCredentialKind::Bearer)));
    assert!(push_now(0, true));
    assert!(!push_now(1, true));
    assert!(!push_now(0, false));
    assert_eq!(after_synced_push(Ok(true), SupportState::Supported, true), SyncedEditStep::Accept);
    assert!(matches!(
        after_synced_push(Ok(false), SupportState::Supported, true),
        SyncedEditStep::FutureFormat(AppError::Unsupported(_))
    ));
    let offline = AppError::Transport("off".into());
    assert_eq!(
        after_synced_push(Err(offline.clone()), SupportState::Supported, true),
        SyncedEditStep::Enqueue
    );
    assert_eq!(
        after_synced_push(Err(offline.clone()), SupportState::Unknown, true),
        SyncedEditStep::ApplyLocally
    );
    assert_eq!(
        after_synced_push(Err(offline), SupportState::Supported, false),
        SyncedEditStep::ApplyLocally
    );
    assert_eq!(
        after_synced_push(
            Err(AppError::Unsupported("endpoint_unimplemented: x".into())),
            SupportState::Supported,
            true
        ),
        SyncedEditStep::FallBackToLocal
    );
    assert_eq!(
        after_synced_push(Err(AppError::Forbidden("f".into())), SupportState::Supported, true),
        SyncedEditStep::Fail(AppError::Forbidden("f".into()))
    );
    assert_eq!(bearer_for_scope(UNCONFIGURED_SCOPE, None), Ok(false));
    assert!(matches!(bearer_for_scope("server:x", None), Err(AppError::Conflict { .. })));
    assert_eq!(
        bearer_for_scope("server:x", Some(("server:x", Some(StoredCredentialKind::Bearer)))),
        Ok(true)
    );
    assert_eq!(
        bearer_for_scope("server:x", Some(("server:x", Some(StoredCredentialKind::SecretKey)))),
        Ok(false)
    );
    assert!(bearer_for_scope("server:x", Some(("server:y", None))).is_err());
    assert_eq!(device_secret_text(Some("abc".into())), ("abc".to_string(), false));
    let (fresh, generated) = device_secret_text(None);
    assert!(generated);
    assert_eq!(fresh.len(), 64);
    assert!(fresh.chars().all(|c| c.is_ascii_hexdigit() && !c.is_ascii_uppercase()));
}

#[test]
fn reported_outputs_are_scrubbed() {
    let mut outputs = vec![out("  USB DAC  ", true, true, None)];
    outputs[0].runtime_id = Some("{0.0.0.00000000}.{abc}".into());
    outputs[0].vendor_id = Some(" 0x1A2B ".into());
    let secret = b"device-secret";
    scrub_outputs(&mut outputs, secret);
    assert_eq!(outputs[0].display_name, "USB DAC");
    assert_eq!(outputs[0].runtime_id, None);
    assert_eq!(
        outputs[0].local_endpoint_key.as_deref(),
        Some(endpoint_hmac(secret, "{0.0.0.00000000}.{abc}").as_str())
    );
    assert_eq!(outputs[0].vendor_id, normalize_hardware_id(Some(" 0x1A2B ")));
    assert!(outputs[0].selected);
    let mut bare = vec![out("B", false, false, None)];
    scrub_outputs(&mut bare, secret);
    assert_eq!(bare[0].local_endpoint_key, None);
}

#[test]
fn layers_for_the_resolver() {
    let synced = state_with(&[("p1", 1), ("p2", 2)], vec![op_rule("r1", uses("p2"), 3, 1)]);
    let layer = ResolverLayer::from_synced(synced);
    assert_eq!(layer.profile_ids, vec!["p1".to_string(), "p2".to_string()]);
    assert_eq!(layer.device_rules.len(), 1);
    assert_eq!(layer.default_profile_id, None);
    let local = LocalEqualizerState {
        default_profile_id: Some("l".into()),
        profiles: vec![],
        device_rules: vec![],
    };
    let layer: ResolverLayer = ResolverLayer::from_local::<Sound>(local);
    assert!(layer.profile_ids.is_empty());
    assert_eq!(layer.default_profile_id.as_deref(), Some("l"));
}

#[test]
fn now_is_rfc3339_utc_text() {
    let t = now_string();
    let b = t.as_bytes();
    assert!(t.len() >= 20 && t.len() <= 30);
    assert_eq!((b[4], b[7], b[10], b[13], b[16]), (b'-', b'-', b'T', b':', b':'));
    assert!(t.ends_with('Z'));
    assert!(t[..4].chars().all(|c| c.is_ascii_digit()));
}

#[test]
fn reported_outputs_keep_or_replace_the_resolution() {
    let a = vec![out("A", true, true, Some("k"))];
    let same = a.clone();
    assert_eq!(after_outputs_report(&a, &same, true), OutputsStep::ReuseResolved);
    assert_eq!(after_outputs_report(&a, &same, false), OutputsStep::Resolve);
    let moved = vec![out("A", false, true, Some("k"))];
    assert_eq!(after_outputs_report(&a, &moved, true), OutputsStep::ReplaceAndResolve);
    assert_eq!(after_outputs_report(&a, &[], true), OutputsStep::ReplaceAndResolve);
}

fn plain_profile(id: &str, name: &str, sound: u8) -> EqualizerProfile<u8> {
    EqualizerProfile {
        id: id.into(),
        name: name.into(),
        format_version: EQ_PROFILE_FORMAT_VERSION,
        sound,
        auto_headroom_enabled: true,
        revision: Revision(3),
        created_at: "2024-01-01T00:00:00Z".into(),
        updated_at: "2024-01-01T00:00:00Z".into(),
    }
}

fn labelled_rule(id: &str, label: &str, action: RuleAction, selectors: Vec<PortableDeviceSelector>) -> EqualizerDeviceRule {
    EqualizerDeviceRule {
        id: id.into(),
        label: label.into(),
        action,
        selectors,
        priority: 7,
        enabled: true,
        revision: Revision(2),
    }
}

fn preservation_case() -> (LocalEqualizerState<u8>, EqualizerState<u8>) {
    let local = LocalEqualizerState {
        default_profile_id: None,
        profiles: vec![plain_profile("local-warm", "Warm", 1), plain_profile("shared-id", "Bright", 2)],
        device_rules: vec![labelled_rule(
            "local-car",
            "Car",
            RuleAction::Profile { profile_id: "local-warm".into() },
            vec![selector(TriggerKind::Connected, "Car Kit")],
        )],
    };
    let mut synced: EqualizerState<u8> = EqualizerState::default();
    synced.default_profile_id = Some("server-fresh".into());
    synced.profiles = vec![
        plain_profile("server-warm", "  warm ", 1),
        plain_profile("shared-id", "Bright", 9),
        plain_profile("server-fresh", "Fresh", 4),
    ];
    synced.device_rules = vec![
        labelled_rule(
            "server-car",
            "Car",
            RuleAction::Profile { profile_id: "server-warm".into() },
            vec![selector(TriggerKind::Connected, "Car Kit")],
        ),
        labelled_rule(
            "server-gone",
            "Gone",
            RuleAction::Profile { profile_id: "not-a-server-profile".into() },
            vec![selector(TriggerKind::Connected, "Old")],
        ),
        labelled_rule("local-car", "Desk", RuleAction::Bypass, vec![selector(TriggerKind::Connected, "Desk")]),
    ];
    (local, synced)
}

fn sound_rows(local: &LocalEqualizerState<u8>, synced: &EqualizerState<u8>) -> Vec<Vec<bool>> {
    synced
        .profiles
        .iter()
        .map(|s| local.profiles.iter().map(|l| l.sound == s.sound).collect())
        .collect()
}

#[test]
fn preserving_a_snapshot_reuses_remaps_and_recovers() {
    let (local, synced) = preservation_case();
    let same = sound_rows(&local, &synced);
    let names = vec!["a".repeat(32), "b".repeat(32), "c".repeat(32)];
    let fresh = vec!["f0".to_string(), "f1".to_string(), "f2".to_string()];
    let plan = plan_preservation_with("scope", &local, &synced, &same, &names, &fresh, "NOW").unwrap();

    let recovery_id = recovery_profile_id("scope", "shared-id", 0);
    assert_eq!(
        plan.recovery_map.profile_ids,
        vec![
            ("server-warm".to_string(), "local-warm".to_string()),
            ("shared-id".to_string(), recovery_id.clone()),
            ("server-fresh".to_string(), "server-fresh".to_string()),
        ]
    );
    assert_eq!(plan.profiles.len(), 2);
    assert_eq!(plan.profiles[0].id, recovery_id);
    assert_eq!(plan.profiles[0].name, "Bright (server recovery)");
    assert_eq!(plan.profiles[0].sound, 9);
    assert_eq!(plan.profiles[0].revision, Revision(0));
    assert_eq!(plan.profiles[0].created_at, "NOW");
    assert_eq!(plan.profiles[0].updated_at, "NOW");
    assert_eq!(plan.profiles[1].id, "server-fresh");
    assert_eq!(plan.profiles[1].name, "Fresh");

    assert_eq!(plan.rule_priorities, vec![("local-car".to_string(), i32::MAX)]);
    assert_eq!(plan.rules.len(), 1);
    assert_eq!(plan.rules[0].id, "f2");
    assert_eq!(plan.rules[0].label, "Desk");
    assert_eq!(plan.rules[0].action, RuleAction::Bypass);
    assert_eq!(plan.rules[0].priority, i32::MAX - 2);
    assert_eq!(plan.rules[0].revision, Revision(0));
    assert_eq!(
        plan.recovery_map.rule_ids,
        vec![
            ("server-car".to_string(), "local-car".to_string()),
            ("local-car".to_string(), "f2".to_string()),
        ]
    );
    assert_eq!(plan.default_profile_id, Some("server-fresh".to_string()));
}

#[test]
fn preserved_copies_take_fresh_ids_and_every_server_profile_has_a_place() {
    let (local, synced) = preservation_case();
    let same = sound_rows(&local, &synced);
    let names = vec!["a".repeat(32), "b".repeat(32), "c".repeat(32)];
    let fresh = vec!["f0".to_string(), "f1".to_string(), "f2".to_string()];
    let plan = plan_preservation_with("scope", &local, &synced, &same, &names, &fresh, "NOW").unwrap();
    for copy in &plan.profiles {
        assert!(local.profiles.iter().all(|l| l.id != copy.id));
    }
    assert_ne!(plan.profiles[0].id, plan.profiles[1].id);
    for rule in &plan.rules {
        assert!(local.device_rules.iter().all(|l| l.id != rule.id));
    }
    for server in &synced.profiles {
        assert!(plan.recovery_map.profile_ids.iter().any(|(from, _)| *from == server.id));
    }
}

#[test]
fn preservation_fails_when_no_rule_id_is_free() {
    let (local, synced) = preservation_case();
    let same = sound_rows(&local, &synced);
    let names = vec!["a".repeat(32), "b".repeat(32), "c".repeat(32)];
    let fresh = vec!["f0".to_string(), "f1".to_string(), "local-car".to_string()];
    assert!(plan_preservation_with("scope", &local, &synced, &same, &names, &fresh, "NOW").is_none());
}

#[test]
fn preservation_with_random_ids_copies_the_colliding_rule() {
    let (local, synced) = preservation_case();
    let same = sound_rows(&local, &synced);
    let plan = plan_preservation("scope", &local, &synced, &same, "NOW").unwrap();
    assert_eq!(plan.rules.len(), 1);
    assert_eq!(plan.rules[0].id.len(), 36);
    assert_ne!(plan.rules[0].id, "local-car");
    assert_eq!(plan.profiles.len(), 2);
}

#[test]
fn unique_recovery_name_falls_back_to_a_random_free_name() {
    let mut used = vec![normalize_matcher("Warm")];
    assert_eq!(unique_recovery_name(" Warm ", &mut Vec::new()).as_deref(), Some("Warm"));
    let numbered = unique_recovery_name("Warm", &mut used).unwrap();
    assert_eq!(numbered, "Warm (server recovery)");
    assert_eq!(used.len(), 2);
    let mut all: Vec<String> = vec![normalize_matcher("Warm")];
    for n in 1..=999 {
        let marker = if n == 1 { " (server recovery)".to_string() } else { format!(" (server recovery {n})") };
        all.push(normalize_matcher(&format!("Warm{marker}")));
    }
    let before = all.len();
    let random = unique_recovery_name("Warm", &mut all).unwrap();
    assert!(random.starts_with("Recovered "));
    assert_eq!(random.len(), "Recovered ".len() + 32);
    assert_eq!(all.len(), before + 1);
}
