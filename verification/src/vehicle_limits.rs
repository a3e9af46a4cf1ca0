//! The limits of the vehicle being driven: which vehicle they belong to, and
//! the identifier under which they are looked up.
//!
//! The limits themselves are the type parameter `L`; the caller looks them up.
use vstd::prelude::*;

use crate::datamine::database::{replace_char, replaced};
use crate::text::{chars_of, lowercase, string_from_chars, to_lowercase};
use crate::wt_telemetry::str_eq;

verus! {

/// The identifier under which a vehicle's limits are looked up: its name in
/// lower case, with spaces and dashes made underscores.
pub open spec fn limits_identifier_of(vehicle_name: Seq<char>) -> Seq<char> {
    replaced(replaced(lowercase(vehicle_name), ' ', '_'), '-', '_')
}

/// The identifier under which the limits of `vehicle_name` are looked up.
pub fn limits_identifier(vehicle_name: &str) -> (r: String)
    ensures
        r@ == limits_identifier_of(vehicle_name@),
{
    let l = to_lowercase(vehicle_name);
    let v = chars_of(l.as_str());
    let a = replace_char(&v, ' ', '_');
    let b = replace_char(&a, '-', '_');
    string_from_chars(&b)
}

/// The vehicle being driven and the limits found for it.
pub struct VehicleLimitsManager<L> {
    current_vehicle: Option<String>,
    current_limits: Option<L>,
}

impl<L> VehicleLimitsManager<L> {
    /// The vehicle whose limits were last looked up.
    pub closed spec fn vehicle(&self) -> Option<Seq<char>> {
        match self.current_vehicle {
            Some(v) => Some(v@),
            None => None,
        }
    }

    /// The limits in force.
    pub closed spec fn limits(&self) -> Option<L> {
        self.current_limits
    }

    /// No vehicle and no limits yet.
    pub fn new() -> (r: Self)
        ensures
            r.vehicle() is None,
            r.limits() is None,
    {
        VehicleLimitsManager { current_vehicle: None, current_limits: None }
    }

    /// Whether `vehicle_name` is the vehicle whose limits were last looked up;
    /// the lookup is skipped for it.
    pub fn is_current(&self, vehicle_name: &str) -> (r: bool)
        ensures
            r == (self.vehicle() == Some(vehicle_name@)),
    {
        match &self.current_vehicle {
            Some(v) => str_eq(v.as_str(), vehicle_name),
            None => false,
        }
    }

    /// Takes `vehicle_name` as the vehicle being driven, with the limits that
    /// were found for it. Nothing changes for the current vehicle; when nothing
    /// was found, the limits in force stay.
    pub fn update_vehicle(&mut self, vehicle_name: &str, found: Option<L>)
        ensures
            old(self).vehicle() == Some(vehicle_name@) ==> final(self).vehicle() == old(self).vehicle()
                && final(self).limits() == old(self).limits(),
            old(self).vehicle() != Some(vehicle_name@) ==> {
                &&& final(self).vehicle() == Some(vehicle_name@)
                &&& final(self).limits() == if found is Some {
                    found
                } else {
                    old(self).limits()
                }
            },
    {
        if self.is_current(vehicle_name) {
            return;
        }
        if found.is_some() {
            self.current_limits = found;
        }
        self.current_vehicle = Some(string_from_chars(&chars_of(vehicle_name)));
    }

    /// The limits in force.
    pub fn get_limits(&self) -> (r: Option<&L>)
        ensures
            match r {
                Some(l) => self.limits() == Some(*l),
                None => self.limits() is None,
            },
    {
        match &self.current_limits {
            Some(l) => Some(l),
            None => None,
        }
    }

    /// The triggers made from the limits in force. The game's API gives
    /// neither the speed nor the load that such triggers would compare with the
    /// limits, so none are made.
    pub fn generate_limit_triggers<T>(&self) -> (r: Vec<T>)
        ensures
            r@.len() == 0,
    {
        Vec::new()
    }
}

} // verus!
