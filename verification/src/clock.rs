//! The node's clock.

use cita_util::{unix_now, AsMillis};
use vstd::prelude::*;

verus! {

/// Reads `cita_util::unix_now` and turns it into milliseconds with `cita_util::AsMillis`.
///
/// Nothing is claimed of the number: it is whatever the machine's clock says, which has to be set to
/// a time after 1970.
#[verifier::external_body]
pub(crate) fn now_millis() -> u64 {
    AsMillis::as_millis(&unix_now())
}

/// The clock gave this reading, in milliseconds: it came out of a call of `now_millis`, and was not
/// made up.
pub closed spec fn clock_gave(millis: u64) -> bool {
    call_ensures(now_millis, (), millis)
}

/// What a call of `now_millis` returns is a reading of the clock.
pub(crate) broadcast proof fn readings_come_from_the_clock(millis: u64)
    requires
        #[trigger] call_ensures(now_millis, (), millis),
    ensures
        clock_gave(millis),
{
}

} // verus!
