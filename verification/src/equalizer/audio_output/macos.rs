//! macOS: the default output device, classified by its name.
use vstd::prelude::*;

use super::{to_lowercase, unicode_lowercase};
use crate::equalizer::model::{AudioOutput, BindingStability, RouteAccuracy, RouteKind};
use crate::text::{chars_of, contains_exec, contains_seq};

verus! {

/// Route kind from a lowercased CoreAudio device name.
pub open spec fn route_for_lower(lower: Seq<char>) -> RouteKind {
    if contains_seq(lower, "airplay"@) {
        RouteKind::Airplay
    } else if contains_seq(lower, "bluetooth"@) || contains_seq(lower, "airpods"@) || contains_seq(
        lower,
        "beats"@,
    ) {
        RouteKind::Bluetooth
    } else if contains_seq(lower, "usb"@) || contains_seq(lower, "dac"@) {
        RouteKind::Usb
    } else if contains_seq(lower, "hdmi"@) || contains_seq(lower, "display"@) {
        RouteKind::Hdmi
    } else if contains_seq(lower, "headphone"@) || contains_seq(lower, "headset"@) {
        RouteKind::Wired
    } else if contains_seq(lower, "speaker"@) || contains_seq(lower, "macbook"@) || contains_seq(
        lower,
        "imac"@,
    ) {
        RouteKind::Builtin
    } else {
        RouteKind::Unknown
    }
}

/// Classify a device by keywords in its (lowercased) name.
pub fn classify_route(name: &str) -> (r: RouteKind)
    ensures
        r == route_for_lower(unicode_lowercase(name@)),
{
    let lower = chars_of(to_lowercase(name).as_str());
    if contains_exec(&lower, "airplay") {
        RouteKind::Airplay
    } else if contains_exec(&lower, "bluetooth") || contains_exec(&lower, "airpods")
        || contains_exec(&lower, "beats") {
        RouteKind::Bluetooth
    } else if contains_exec(&lower, "usb") || contains_exec(&lower, "dac") {
        RouteKind::Usb
    } else if contains_exec(&lower, "hdmi") || contains_exec(&lower, "display") {
        RouteKind::Hdmi
    } else if contains_exec(&lower, "headphone") || contains_exec(&lower, "headset") {
        RouteKind::Wired
    } else if contains_exec(&lower, "speaker") || contains_exec(&lower, "macbook")
        || contains_exec(&lower, "imac") {
        RouteKind::Builtin
    } else {
        RouteKind::Unknown
    }
}

/// Name used when the device name cannot be read.
pub const FALLBACK_NAME: &'static str = "System default output";

/// The outputs reported for the default device: none when there is no
/// default device (id 0), else the one selected, connected device under
/// its name (or the fallback name) with its UID as the runtime id.
pub fn outputs_for_default(device: u32, name: Option<String>, uid: String) -> (r: Vec<AudioOutput>)
    ensures
        device == 0 ==> r@.len() == 0,
        device != 0 ==> r@.len() == 1 && ({
            let o = r@[0];
            let shown = match name {
                Some(n) => n@,
                None => FALLBACK_NAME@,
            };
            &&& o.runtime_id matches Some(u) && u@ == uid@
            &&& o.local_endpoint_key is None
            &&& o.display_name@ == shown
            &&& o.route_kind == route_for_lower(unicode_lowercase(shown))
            &&& o.vendor_id is None
            &&& o.product_id is None
            &&& o.connected
            &&& o.selected
            &&& o.accuracy == RouteAccuracy::Default
            &&& o.binding_stability == BindingStability::PersistentExact
        }),
{
    let mut out: Vec<AudioOutput> = Vec::new();
    if device == 0 {
        return out;
    }
    let display_name = match name {
        Some(n) => n,
        None => FALLBACK_NAME.to_owned(),
    };
    let route_kind = classify_route(display_name.as_str());
    out.push(
        AudioOutput {
            runtime_id: Some(uid),
            local_endpoint_key: None,
            route_kind,
            display_name,
            vendor_id: None,
            product_id: None,
            connected: true,
            selected: true,
            accuracy: RouteAccuracy::Default,
            binding_stability: BindingStability::PersistentExact,
        },
    );
    out
}

} // verus!
