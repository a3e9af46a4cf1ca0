//! Devices seen before, as the history offers them for suggestions.
use vstd::prelude::*;

verus! {

/// A device seen before: when it was last seen is an RFC 3339 time stamp.
pub struct DeviceRecord {
    pub id: String,
    pub name: String,
    pub device_type: String,
    pub last_seen: String,
}

} // verus!
