//! Operation type names of the equalizer mutation outbox.
use vstd::prelude::*;

verus! {

pub const PROFILE_CREATE: &'static str = "equalizer.profile.create";

pub const PROFILE_UPDATE: &'static str = "equalizer.profile.update";

pub const PROFILE_DELETE: &'static str = "equalizer.profile.delete";

pub const SETTINGS_UPDATE: &'static str = "equalizer.settings.update";

pub const RULE_CREATE: &'static str = "equalizer.rule.create";

pub const RULE_UPDATE: &'static str = "equalizer.rule.update";

pub const RULE_DELETE: &'static str = "equalizer.rule.delete";

pub const RULE_REORDER: &'static str = "equalizer.rule.reorder";

} // verus!
