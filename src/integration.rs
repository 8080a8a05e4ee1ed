//! The on/off switch of the shell hook, kept as a word in a status file.
use vstd::prelude::*;
use vstd::string::*;
use crate::text::{trim, trim_spec};

verus! {

/// Whether the status file's contents leave the hook on: a missing file
/// does, otherwise the trimmed text must read `enabled`.
pub open spec fn enabled_spec(contents: Option<Seq<char>>) -> bool {
    match contents {
        None => true,
        Some(c) => trim_spec(c) == "enabled"@,
    }
}

pub fn is_integration_enabled(contents: Option<&str>) -> (r: bool)
    ensures
        r == enabled_spec(match contents {
            Some(c) => Some(c@),
            None => None,
        }),
{
    match contents {
        None => true,
        Some(c) => String::from_str(trim(c)) == String::from_str("enabled"),
    }
}

/// The word written to the status file.
pub fn integration_status_text(enabled: bool) -> (r: &'static str)
    ensures
        r@ == (if enabled {
            "enabled"@
        } else {
            "disabled"@
        }),
{
    if enabled {
        "enabled"
    } else {
        "disabled"
    }
}

/// The state a toggle leads to.
pub fn toggle_integration(currently_enabled: bool) -> (r: bool)
    ensures
        r == !currently_enabled,
{
    !currently_enabled
}

} // verus!
