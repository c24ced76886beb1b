//! What leaves the machine: no traces, archives, snapshots, telemetry, feedback
//! or crash reports. Logins and requests to models are not affected.

use vstd::prelude::*;

verus! {

/// Whether every upload that is not needed is turned off.
pub const OPTIONAL_UPLOADS_DISABLED: bool = true;

/// Whether every upload that is not needed is turned off: it always is.
pub fn optional_uploads_disabled() -> (r: bool)
    ensures
        r,
        r == OPTIONAL_UPLOADS_DISABLED,
{
    OPTIONAL_UPLOADS_DISABLED
}

} // verus!
