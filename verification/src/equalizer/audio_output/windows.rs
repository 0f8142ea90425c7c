//! Windows: active render endpoints, classified by their friendly names.
use vstd::prelude::*;

use super::{to_lowercase, unicode_lowercase};
use crate::equalizer::model::{AudioOutput, BindingStability, RouteAccuracy, RouteKind};
use crate::text::{chars_of, contains_exec, contains_seq};

verus! {

/// Route kind from a lowercased endpoint friendly name.
pub open spec fn route_for_lower(lower: Seq<char>) -> RouteKind {
    if contains_seq(lower, "bluetooth"@) || contains_seq(lower, "a2dp"@) || contains_seq(
        lower,
        "hands-free"@,
    ) {
        RouteKind::Bluetooth
    } else if contains_seq(lower, "usb"@) || contains_seq(lower, "dac"@) {
        RouteKind::Usb
    } else if contains_seq(lower, "hdmi"@) || contains_seq(lower, "display audio"@) {
        RouteKind::Hdmi
    } else if contains_seq(lower, "headphone"@) || contains_seq(lower, "headset"@) {
        RouteKind::Wired
    } else if contains_seq(lower, "speaker"@) || contains_seq(lower, "built-in"@) || contains_seq(
        lower,
        "realtek"@,
    ) {
        RouteKind::Builtin
    } else {
        RouteKind::Unknown
    }
}

/// Classify an endpoint by keywords in its (lowercased) friendly name.
pub fn classify_route(name: &str) -> (r: RouteKind)
    ensures
        r == route_for_lower(unicode_lowercase(name@)),
{
    let lower = chars_of(to_lowercase(name).as_str());
    if contains_exec(&lower, "bluetooth") || contains_exec(&lower, "a2dp") || contains_exec(
        &lower,
        "hands-free",
    ) {
        RouteKind::Bluetooth
    } else if contains_exec(&lower, "usb") || contains_exec(&lower, "dac") {
        RouteKind::Usb
    } else if contains_exec(&lower, "hdmi") || contains_exec(&lower, "display audio") {
        RouteKind::Hdmi
    } else if contains_exec(&lower, "headphone") || contains_exec(&lower, "headset") {
        RouteKind::Wired
    } else if contains_exec(&lower, "speaker") || contains_exec(&lower, "built-in")
        || contains_exec(&lower, "realtek") {
        RouteKind::Builtin
    } else {
        RouteKind::Unknown
    }
}

/// Name used when an endpoint's friendly name cannot be read.
pub const FALLBACK_NAME: &'static str = "Windows audio output";

/// The output record for one active endpoint: selected (with default
/// accuracy) when its id is the default endpoint's, else connected-only.
pub fn endpoint_output(runtime_id: String, name: Option<String>, default_id: Option<&str>) -> (r:
    AudioOutput)
    ensures
        ({
            let shown = match name {
                Some(n) => n@,
                None => FALLBACK_NAME@,
            };
            let selected = default_id matches Some(d) && d@ == runtime_id@;
            &&& r.runtime_id matches Some(u) && u@ == runtime_id@
            &&& r.local_endpoint_key is None
            &&& r.display_name@ == shown
            &&& r.route_kind == route_for_lower(unicode_lowercase(shown))
            &&& r.vendor_id is None
            &&& r.product_id is None
            &&& r.connected
            &&& r.selected == selected
            &&& r.accuracy == if selected {
                RouteAccuracy::Default
            } else {
                RouteAccuracy::ConnectedOnly
            }
            &&& r.binding_stability == BindingStability::PersistentExact
        }),
{
    let display_name = match name {
        Some(n) => n,
        None => FALLBACK_NAME.to_owned(),
    };
    let selected = match default_id {
        Some(d) => d.to_owned() == runtime_id,
        None => false,
    };
    let route_kind = classify_route(display_name.as_str());
    AudioOutput {
        runtime_id: Some(runtime_id),
        local_endpoint_key: None,
        route_kind,
        display_name,
        vendor_id: None,
        product_id: None,
        connected: true,
        selected,
        accuracy: if selected {
            RouteAccuracy::Default
        } else {
            RouteAccuracy::ConnectedOnly
        },
        binding_stability: BindingStability::PersistentExact,
    }
}

} // verus!
