//! Whether debug logging is on.
use vstd::prelude::*;
use vstd::string::*;
use crate::text::str_eq;

verus! {

/// The setting of `SPARROW_DEBUG` turns debug logging on when it is set,
/// not empty, and neither `0` nor `false`.
pub fn debug_enabled_from(value: Option<&str>) -> (b: bool)
    ensures
        b == match value {
            Some(v) => v@.len() > 0 && v@ != "0"@ && v@ != "false"@,
            None => false,
        },
{
    match value {
        Some(v) => !v.is_empty() && !str_eq(v, "0") && !str_eq(v, "false"),
        None => false,
    }
}

} // verus!
